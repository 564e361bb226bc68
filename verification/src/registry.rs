//! The token-type registry: a fixed table mapping known command names
//! (stored lowercase) to the number of argument words they consume and the
//! lowest compatibility level at which the engine understands them, plus the
//! set of known `<SECTION>` header names.
//!
//! The parser consults the table to decide how many upcoming words belong to
//! a command; the compatibility lint consults it to flag commands that the
//! targeted engine version does not know.

use vstd::prelude::*;
use crate::bytes::str_bytes;

verus! {

/// Numeric rank of each compatibility level; greater means more permissive
/// feature sets. The ordering is what gating comparisons use.
pub const LEVEL_ALL: u8 = 0;

pub const LEVEL_CONQUERORS: u8 = 1;

pub const LEVEL_HD_EDITION: u8 = 2;

pub const LEVEL_USERPATCH14: u8 = 3;

pub const LEVEL_USERPATCH15: u8 = 4;

pub const LEVEL_WOLOLOKINGDOMS: u8 = 5;

pub const LEVEL_DEFINITIVE_EDITION: u8 = 6;

/// Registry entry for one command name.
#[derive(Debug, Clone, Copy, PartialEq, Eq, Structural)]
pub struct CommandInfo {
    /// How many argument words the command consumes.
    pub arity: u8,
    /// Lowest compatibility level at which the command is available.
    pub min_level: u8,
}

/// The command table. Keys are lowercase command names; the parser looks up
/// the lowercased word, so registered commands are recognised in any case.
pub open spec fn spec_command_info(name: Seq<u8>) -> Option<CommandInfo> {
    if name == str_bytes("random_placement") { Some(CommandInfo { arity: 0, min_level: LEVEL_ALL }) }
    else if name == str_bytes("grouped_by_team") { Some(CommandInfo { arity: 0, min_level: LEVEL_ALL }) }
    else if name == str_bytes("ai_info_map_type") { Some(CommandInfo { arity: 1, min_level: LEVEL_ALL }) }
    else if name == str_bytes("base_terrain") { Some(CommandInfo { arity: 1, min_level: LEVEL_ALL }) }
    else if name == str_bytes("base_size") { Some(CommandInfo { arity: 1, min_level: LEVEL_ALL }) }
    else if name == str_bytes("base_elevation") { Some(CommandInfo { arity: 1, min_level: LEVEL_ALL }) }
    else if name == str_bytes("border_fuzziness") { Some(CommandInfo { arity: 1, min_level: LEVEL_ALL }) }
    else if name == str_bytes("land_percent") { Some(CommandInfo { arity: 1, min_level: LEVEL_ALL }) }
    else if name == str_bytes("land_position") { Some(CommandInfo { arity: 2, min_level: LEVEL_ALL }) }
    else if name == str_bytes("left_border") { Some(CommandInfo { arity: 1, min_level: LEVEL_ALL }) }
    else if name == str_bytes("right_border") { Some(CommandInfo { arity: 1, min_level: LEVEL_ALL }) }
    else if name == str_bytes("top_border") { Some(CommandInfo { arity: 1, min_level: LEVEL_ALL }) }
    else if name == str_bytes("bottom_border") { Some(CommandInfo { arity: 1, min_level: LEVEL_ALL }) }
    else if name == str_bytes("border_usage") { Some(CommandInfo { arity: 1, min_level: LEVEL_ALL }) }
    else if name == str_bytes("zone") { Some(CommandInfo { arity: 1, min_level: LEVEL_ALL }) }
    else if name == str_bytes("set_zone_by_team") { Some(CommandInfo { arity: 0, min_level: LEVEL_ALL }) }
    else if name == str_bytes("set_zone_randomly") { Some(CommandInfo { arity: 0, min_level: LEVEL_ALL }) }
    else if name == str_bytes("other_zone_avoidance_distance") { Some(CommandInfo { arity: 1, min_level: LEVEL_ALL }) }
    else if name == str_bytes("create_land") { Some(CommandInfo { arity: 0, min_level: LEVEL_ALL }) }
    else if name == str_bytes("create_player_lands") { Some(CommandInfo { arity: 0, min_level: LEVEL_ALL }) }
    else if name == str_bytes("create_terrain") { Some(CommandInfo { arity: 1, min_level: LEVEL_ALL }) }
    else if name == str_bytes("terrain_type") { Some(CommandInfo { arity: 1, min_level: LEVEL_ALL }) }
    else if name == str_bytes("number_of_clumps") { Some(CommandInfo { arity: 1, min_level: LEVEL_ALL }) }
    else if name == str_bytes("spacing_to_other_terrain_types") { Some(CommandInfo { arity: 1, min_level: LEVEL_ALL }) }
    else if name == str_bytes("height_limits") { Some(CommandInfo { arity: 2, min_level: LEVEL_ALL }) }
    else if name == str_bytes("set_flat_terrain_only") { Some(CommandInfo { arity: 0, min_level: LEVEL_ALL }) }
    else if name == str_bytes("clumping_factor") { Some(CommandInfo { arity: 1, min_level: LEVEL_ALL }) }
    else if name == str_bytes("create_elevation") { Some(CommandInfo { arity: 1, min_level: LEVEL_ALL }) }
    else if name == str_bytes("spacing") { Some(CommandInfo { arity: 1, min_level: LEVEL_ALL }) }
    else if name == str_bytes("min_number_of_cliffs") { Some(CommandInfo { arity: 1, min_level: LEVEL_ALL }) }
    else if name == str_bytes("max_number_of_cliffs") { Some(CommandInfo { arity: 1, min_level: LEVEL_ALL }) }
    else if name == str_bytes("min_length_of_cliff") { Some(CommandInfo { arity: 1, min_level: LEVEL_ALL }) }
    else if name == str_bytes("max_length_of_cliff") { Some(CommandInfo { arity: 1, min_level: LEVEL_ALL }) }
    else if name == str_bytes("cliff_curliness") { Some(CommandInfo { arity: 1, min_level: LEVEL_ALL }) }
    else if name == str_bytes("min_distance_cliffs") { Some(CommandInfo { arity: 1, min_level: LEVEL_ALL }) }
    else if name == str_bytes("min_terrain_distance") { Some(CommandInfo { arity: 1, min_level: LEVEL_ALL }) }
    else if name == str_bytes("create_object") { Some(CommandInfo { arity: 1, min_level: LEVEL_ALL }) }
    else if name == str_bytes("number_of_objects") { Some(CommandInfo { arity: 1, min_level: LEVEL_ALL }) }
    else if name == str_bytes("number_of_groups") { Some(CommandInfo { arity: 1, min_level: LEVEL_ALL }) }
    else if name == str_bytes("group_variance") { Some(CommandInfo { arity: 1, min_level: LEVEL_ALL }) }
    else if name == str_bytes("group_placement_radius") { Some(CommandInfo { arity: 1, min_level: LEVEL_ALL }) }
    else if name == str_bytes("set_loose_grouping") { Some(CommandInfo { arity: 0, min_level: LEVEL_ALL }) }
    else if name == str_bytes("set_tight_grouping") { Some(CommandInfo { arity: 0, min_level: LEVEL_ALL }) }
    else if name == str_bytes("set_scaling_to_map_size") { Some(CommandInfo { arity: 0, min_level: LEVEL_ALL }) }
    else if name == str_bytes("set_scaling_to_player_number") { Some(CommandInfo { arity: 0, min_level: LEVEL_ALL }) }
    else if name == str_bytes("set_place_for_every_player") { Some(CommandInfo { arity: 0, min_level: LEVEL_ALL }) }
    else if name == str_bytes("set_gaia_object_only") { Some(CommandInfo { arity: 0, min_level: LEVEL_ALL }) }
    else if name == str_bytes("min_distance_to_players") { Some(CommandInfo { arity: 1, min_level: LEVEL_ALL }) }
    else if name == str_bytes("max_distance_to_players") { Some(CommandInfo { arity: 1, min_level: LEVEL_ALL }) }
    else if name == str_bytes("min_distance_group_placement") { Some(CommandInfo { arity: 1, min_level: LEVEL_ALL }) }
    else if name == str_bytes("temp_min_distance_group_placement") { Some(CommandInfo { arity: 1, min_level: LEVEL_ALL }) }
    else if name == str_bytes("max_distance_to_other_zones") { Some(CommandInfo { arity: 1, min_level: LEVEL_ALL }) }
    else if name == str_bytes("create_connect_all_players_land") { Some(CommandInfo { arity: 0, min_level: LEVEL_ALL }) }
    else if name == str_bytes("create_connect_teams_lands") { Some(CommandInfo { arity: 0, min_level: LEVEL_ALL }) }
    else if name == str_bytes("create_connect_all_lands") { Some(CommandInfo { arity: 0, min_level: LEVEL_ALL }) }
    else if name == str_bytes("create_connect_same_land_zones") { Some(CommandInfo { arity: 0, min_level: LEVEL_ALL }) }
    else if name == str_bytes("replace_terrain") { Some(CommandInfo { arity: 2, min_level: LEVEL_ALL }) }
    else if name == str_bytes("terrain_cost") { Some(CommandInfo { arity: 2, min_level: LEVEL_ALL }) }
    else if name == str_bytes("terrain_size") { Some(CommandInfo { arity: 3, min_level: LEVEL_ALL }) }
    else if name == str_bytes("assign_to_player") { Some(CommandInfo { arity: 1, min_level: LEVEL_ALL }) }
    else if name == str_bytes("#include") { Some(CommandInfo { arity: 1, min_level: LEVEL_ALL }) }
    else if name == str_bytes("#include_drs") { Some(CommandInfo { arity: 1, min_level: LEVEL_ALL }) }
    else if name == str_bytes("nomad_resources") { Some(CommandInfo { arity: 0, min_level: LEVEL_USERPATCH14 }) }
    else if name == str_bytes("direct_placement") { Some(CommandInfo { arity: 0, min_level: LEVEL_USERPATCH15 }) }
    else if name == str_bytes("effect_amount") { Some(CommandInfo { arity: 4, min_level: LEVEL_USERPATCH15 }) }
    else if name == str_bytes("effect_percent") { Some(CommandInfo { arity: 4, min_level: LEVEL_USERPATCH15 }) }
    else if name == str_bytes("guard_state") { Some(CommandInfo { arity: 4, min_level: LEVEL_USERPATCH15 }) }
    else if name == str_bytes("terrain_state") { Some(CommandInfo { arity: 4, min_level: LEVEL_USERPATCH15 }) }
    else if name == str_bytes("weather_type") { Some(CommandInfo { arity: 4, min_level: LEVEL_USERPATCH15 }) }
    else if name == str_bytes("assign_to") { Some(CommandInfo { arity: 4, min_level: LEVEL_DEFINITIVE_EDITION }) }
    else if name == str_bytes("actor_area") { Some(CommandInfo { arity: 1, min_level: LEVEL_DEFINITIVE_EDITION }) }
    else if name == str_bytes("actor_area_radius") { Some(CommandInfo { arity: 1, min_level: LEVEL_DEFINITIVE_EDITION }) }
    else if name == str_bytes("actor_area_to_place_in") { Some(CommandInfo { arity: 1, min_level: LEVEL_DEFINITIVE_EDITION }) }
    else if name == str_bytes("avoid_actor_area") { Some(CommandInfo { arity: 1, min_level: LEVEL_DEFINITIVE_EDITION }) }
    else { None }
}

/// Known `<SECTION>` header names, in their canonical order of appearance.
/// The rank is what the section-ordering lint compares.
pub open spec fn spec_section_rank(name: Seq<u8>) -> Option<u8> {
    if name == str_bytes("<PLAYER_SETUP>") { Some(0u8) }
    else if name == str_bytes("<LAND_GENERATION>") { Some(1u8) }
    else if name == str_bytes("<ELEVATION_GENERATION>") { Some(2u8) }
    else if name == str_bytes("<CLIFF_GENERATION>") { Some(3u8) }
    else if name == str_bytes("<TERRAIN_GENERATION>") { Some(4u8) }
    else if name == str_bytes("<CONNECTION_GENERATION>") { Some(5u8) }
    else if name == str_bytes("<OBJECTS_GENERATION>") { Some(6u8) }
    else { None }
}

/// Is the (exact-case) name a key of the registry, command or section?
pub open spec fn spec_in_registry(name: Seq<u8>) -> bool {
    spec_command_info(name) is Some || spec_section_rank(name) is Some
}

/// Look up a command name. The table stores lowercase keys only, so callers
/// pass the lowercased word when they want case-insensitive matching.
pub fn command_info(name: &[u8]) -> (r: Option<CommandInfo>)
    ensures
        r == spec_command_info(name@),
{
    if crate::bytes::eq_str(name, "random_placement") { Some(CommandInfo { arity: 0, min_level: LEVEL_ALL }) }
    else if crate::bytes::eq_str(name, "grouped_by_team") { Some(CommandInfo { arity: 0, min_level: LEVEL_ALL }) }
    else if crate::bytes::eq_str(name, "ai_info_map_type") { Some(CommandInfo { arity: 1, min_level: LEVEL_ALL }) }
    else if crate::bytes::eq_str(name, "base_terrain") { Some(CommandInfo { arity: 1, min_level: LEVEL_ALL }) }
    else if crate::bytes::eq_str(name, "base_size") { Some(CommandInfo { arity: 1, min_level: LEVEL_ALL }) }
    else if crate::bytes::eq_str(name, "base_elevation") { Some(CommandInfo { arity: 1, min_level: LEVEL_ALL }) }
    else if crate::bytes::eq_str(name, "border_fuzziness") { Some(CommandInfo { arity: 1, min_level: LEVEL_ALL }) }
    else if crate::bytes::eq_str(name, "land_percent") { Some(CommandInfo { arity: 1, min_level: LEVEL_ALL }) }
    else if crate::bytes::eq_str(name, "land_position") { Some(CommandInfo { arity: 2, min_level: LEVEL_ALL }) }
    else if crate::bytes::eq_str(name, "left_border") { Some(CommandInfo { arity: 1, min_level: LEVEL_ALL }) }
    else if crate::bytes::eq_str(name, "right_border") { Some(CommandInfo { arity: 1, min_level: LEVEL_ALL }) }
    else if crate::bytes::eq_str(name, "top_border") { Some(CommandInfo { arity: 1, min_level: LEVEL_ALL }) }
    else if crate::bytes::eq_str(name, "bottom_border") { Some(CommandInfo { arity: 1, min_level: LEVEL_ALL }) }
    else if crate::bytes::eq_str(name, "border_usage") { Some(CommandInfo { arity: 1, min_level: LEVEL_ALL }) }
    else if crate::bytes::eq_str(name, "zone") { Some(CommandInfo { arity: 1, min_level: LEVEL_ALL }) }
    else if crate::bytes::eq_str(name, "set_zone_by_team") { Some(CommandInfo { arity: 0, min_level: LEVEL_ALL }) }
    else if crate::bytes::eq_str(name, "set_zone_randomly") { Some(CommandInfo { arity: 0, min_level: LEVEL_ALL }) }
    else if crate::bytes::eq_str(name, "other_zone_avoidance_distance") { Some(CommandInfo { arity: 1, min_level: LEVEL_ALL }) }
    else if crate::bytes::eq_str(name, "create_land") { Some(CommandInfo { arity: 0, min_level: LEVEL_ALL }) }
    else if crate::bytes::eq_str(name, "create_player_lands") { Some(CommandInfo { arity: 0, min_level: LEVEL_ALL }) }
    else if crate::bytes::eq_str(name, "create_terrain") { Some(CommandInfo { arity: 1, min_level: LEVEL_ALL }) }
    else if crate::bytes::eq_str(name, "terrain_type") { Some(CommandInfo { arity: 1, min_level: LEVEL_ALL }) }
    else if crate::bytes::eq_str(name, "number_of_clumps") { Some(CommandInfo { arity: 1, min_level: LEVEL_ALL }) }
    else if crate::bytes::eq_str(name, "spacing_to_other_terrain_types") { Some(CommandInfo { arity: 1, min_level: LEVEL_ALL }) }
    else if crate::bytes::eq_str(name, "height_limits") { Some(CommandInfo { arity: 2, min_level: LEVEL_ALL }) }
    else if crate::bytes::eq_str(name, "set_flat_terrain_only") { Some(CommandInfo { arity: 0, min_level: LEVEL_ALL }) }
    else if crate::bytes::eq_str(name, "clumping_factor") { Some(CommandInfo { arity: 1, min_level: LEVEL_ALL }) }
    else if crate::bytes::eq_str(name, "create_elevation") { Some(CommandInfo { arity: 1, min_level: LEVEL_ALL }) }
    else if crate::bytes::eq_str(name, "spacing") { Some(CommandInfo { arity: 1, min_level: LEVEL_ALL }) }
    else if crate::bytes::eq_str(name, "min_number_of_cliffs") { Some(CommandInfo { arity: 1, min_level: LEVEL_ALL }) }
    else if crate::bytes::eq_str(name, "max_number_of_cliffs") { Some(CommandInfo { arity: 1, min_level: LEVEL_ALL }) }
    else if crate::bytes::eq_str(name, "min_length_of_cliff") { Some(CommandInfo { arity: 1, min_level: LEVEL_ALL }) }
    else if crate::bytes::eq_str(name, "max_length_of_cliff") { Some(CommandInfo { arity: 1, min_level: LEVEL_ALL }) }
    else if crate::bytes::eq_str(name, "cliff_curliness") { Some(CommandInfo { arity: 1, min_level: LEVEL_ALL }) }
    else if crate::bytes::eq_str(name, "min_distance_cliffs") { Some(CommandInfo { arity: 1, min_level: LEVEL_ALL }) }
    else if crate::bytes::eq_str(name, "min_terrain_distance") { Some(CommandInfo { arity: 1, min_level: LEVEL_ALL }) }
    else if crate::bytes::eq_str(name, "create_object") { Some(CommandInfo { arity: 1, min_level: LEVEL_ALL }) }
    else if crate::bytes::eq_str(name, "number_of_objects") { Some(CommandInfo { arity: 1, min_level: LEVEL_ALL }) }
    else if crate::bytes::eq_str(name, "number_of_groups") { Some(CommandInfo { arity: 1, min_level: LEVEL_ALL }) }
    else if crate::bytes::eq_str(name, "group_variance") { Some(CommandInfo { arity: 1, min_level: LEVEL_ALL }) }
    else if crate::bytes::eq_str(name, "group_placement_radius") { Some(CommandInfo { arity: 1, min_level: LEVEL_ALL }) }
    else if crate::bytes::eq_str(name, "set_loose_grouping") { Some(CommandInfo { arity: 0, min_level: LEVEL_ALL }) }
    else if crate::bytes::eq_str(name, "set_tight_grouping") { Some(CommandInfo { arity: 0, min_level: LEVEL_ALL }) }
    else if crate::bytes::eq_str(name, "set_scaling_to_map_size") { Some(CommandInfo { arity: 0, min_level: LEVEL_ALL }) }
    else if crate::bytes::eq_str(name, "set_scaling_to_player_number") { Some(CommandInfo { arity: 0, min_level: LEVEL_ALL }) }
    else if crate::bytes::eq_str(name, "set_place_for_every_player") { Some(CommandInfo { arity: 0, min_level: LEVEL_ALL }) }
    else if crate::bytes::eq_str(name, "set_gaia_object_only") { Some(CommandInfo { arity: 0, min_level: LEVEL_ALL }) }
    else if crate::bytes::eq_str(name, "min_distance_to_players") { Some(CommandInfo { arity: 1, min_level: LEVEL_ALL }) }
    else if crate::bytes::eq_str(name, "max_distance_to_players") { Some(CommandInfo { arity: 1, min_level: LEVEL_ALL }) }
    else if crate::bytes::eq_str(name, "min_distance_group_placement") { Some(CommandInfo { arity: 1, min_level: LEVEL_ALL }) }
    else if crate::bytes::eq_str(name, "temp_min_distance_group_placement") { Some(CommandInfo { arity: 1, min_level: LEVEL_ALL }) }
    else if crate::bytes::eq_str(name, "max_distance_to_other_zones") { Some(CommandInfo { arity: 1, min_level: LEVEL_ALL }) }
    else if crate::bytes::eq_str(name, "create_connect_all_players_land") { Some(CommandInfo { arity: 0, min_level: LEVEL_ALL }) }
    else if crate::bytes::eq_str(name, "create_connect_teams_lands") { Some(CommandInfo { arity: 0, min_level: LEVEL_ALL }) }
    else if crate::bytes::eq_str(name, "create_connect_all_lands") { Some(CommandInfo { arity: 0, min_level: LEVEL_ALL }) }
    else if crate::bytes::eq_str(name, "create_connect_same_land_zones") { Some(CommandInfo { arity: 0, min_level: LEVEL_ALL }) }
    else if crate::bytes::eq_str(name, "replace_terrain") { Some(CommandInfo { arity: 2, min_level: LEVEL_ALL }) }
    else if crate::bytes::eq_str(name, "terrain_cost") { Some(CommandInfo { arity: 2, min_level: LEVEL_ALL }) }
    else if crate::bytes::eq_str(name, "terrain_size") { Some(CommandInfo { arity: 3, min_level: LEVEL_ALL }) }
    else if crate::bytes::eq_str(name, "assign_to_player") { Some(CommandInfo { arity: 1, min_level: LEVEL_ALL }) }
    else if crate::bytes::eq_str(name, "#include") { Some(CommandInfo { arity: 1, min_level: LEVEL_ALL }) }
    else if crate::bytes::eq_str(name, "#include_drs") { Some(CommandInfo { arity: 1, min_level: LEVEL_ALL }) }
    else if crate::bytes::eq_str(name, "nomad_resources") { Some(CommandInfo { arity: 0, min_level: LEVEL_USERPATCH14 }) }
    else if crate::bytes::eq_str(name, "direct_placement") { Some(CommandInfo { arity: 0, min_level: LEVEL_USERPATCH15 }) }
    else if crate::bytes::eq_str(name, "effect_amount") { Some(CommandInfo { arity: 4, min_level: LEVEL_USERPATCH15 }) }
    else if crate::bytes::eq_str(name, "effect_percent") { Some(CommandInfo { arity: 4, min_level: LEVEL_USERPATCH15 }) }
    else if crate::bytes::eq_str(name, "guard_state") { Some(CommandInfo { arity: 4, min_level: LEVEL_USERPATCH15 }) }
    else if crate::bytes::eq_str(name, "terrain_state") { Some(CommandInfo { arity: 4, min_level: LEVEL_USERPATCH15 }) }
    else if crate::bytes::eq_str(name, "weather_type") { Some(CommandInfo { arity: 4, min_level: LEVEL_USERPATCH15 }) }
    else if crate::bytes::eq_str(name, "assign_to") { Some(CommandInfo { arity: 4, min_level: LEVEL_DEFINITIVE_EDITION }) }
    else if crate::bytes::eq_str(name, "actor_area") { Some(CommandInfo { arity: 1, min_level: LEVEL_DEFINITIVE_EDITION }) }
    else if crate::bytes::eq_str(name, "actor_area_radius") { Some(CommandInfo { arity: 1, min_level: LEVEL_DEFINITIVE_EDITION }) }
    else if crate::bytes::eq_str(name, "actor_area_to_place_in") { Some(CommandInfo { arity: 1, min_level: LEVEL_DEFINITIVE_EDITION }) }
    else if crate::bytes::eq_str(name, "avoid_actor_area") { Some(CommandInfo { arity: 1, min_level: LEVEL_DEFINITIVE_EDITION }) }
    else { None }
}

/// Look up a section name's canonical rank (exact case).
pub fn section_rank(name: &[u8]) -> (r: Option<u8>)
    ensures
        r == spec_section_rank(name@),
{
    if crate::bytes::eq_str(name, "<PLAYER_SETUP>") { Some(0u8) }
    else if crate::bytes::eq_str(name, "<LAND_GENERATION>") { Some(1u8) }
    else if crate::bytes::eq_str(name, "<ELEVATION_GENERATION>") { Some(2u8) }
    else if crate::bytes::eq_str(name, "<CLIFF_GENERATION>") { Some(3u8) }
    else if crate::bytes::eq_str(name, "<TERRAIN_GENERATION>") { Some(4u8) }
    else if crate::bytes::eq_str(name, "<CONNECTION_GENERATION>") { Some(5u8) }
    else if crate::bytes::eq_str(name, "<OBJECTS_GENERATION>") { Some(6u8) }
    else { None }
}

/// Is the (exact-case) name a key of the registry, command or section?
pub fn in_registry(name: &[u8]) -> (r: bool)
    ensures
        r == spec_in_registry(name@),
{
    command_info(name).is_some() || section_rank(name).is_some()
}

} // verus!
