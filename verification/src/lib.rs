//! The executions of a territory game: what players order, what nations decide for
//! themselves, and what each of these does to the game from tick to tick.

use vstd::prelude::*;

pub mod ai_attack;
pub mod ai_forces;
pub mod ai_strategy;
pub mod alliance_exec;
pub mod attack;
pub mod attack_fight;
pub mod city_execution;
pub mod config;
pub mod construction;
pub mod decimal;
pub mod defense_post_execution;
pub mod defense_posts;
pub mod delete_unit;
pub mod donate;
pub mod donate_gold;
pub mod doomsday_clock_execution;
pub mod embargo_exec;
pub mod emoji_execution;
pub mod exec_enum;
pub mod execution;
pub mod factory_execution;
pub mod flat_heap;
pub mod game;
pub mod game_attacks;
pub mod game_blast;
pub mod game_diplomacy;
pub mod game_land;
pub mod game_structures;
pub mod game_units;
pub mod game_war;
pub mod intent;
pub mod laws;
pub mod laws_aftermath;
pub mod laws_arms;
pub mod laws_attack;
pub mod laws_blast;
pub mod laws_building;
pub mod laws_campaigns;
pub mod laws_clusters;
pub mod laws_customs;
pub mod laws_diplomacy;
pub mod laws_fight;
pub mod laws_ground;
pub mod laws_missiles;
pub mod laws_nations;
pub mod laws_orders;
pub mod laws_realm;
pub mod laws_volleys;
pub mod laws_war;
pub mod lists;
pub mod map;
pub mod mark_disconnected;
pub mod mirv_ai;
pub mod mirv_execution;
pub mod missile_silo_execution;
pub mod move_warship;
pub mod nation;
pub mod nation_alliance;
pub mod nation_batch;
pub mod nation_emoji;
pub mod nation_structures;
pub mod nation_tick;
pub mod noop;
pub mod nuke_ai;
pub mod nuke_execution;
pub mod nuke_targets;
pub mod nuke_volley;
pub mod ordered_map;
pub mod ordered_tiles;
pub mod ordered_units;
pub mod orders;
pub mod parabola;
pub mod player;
pub mod player_clusters;
pub mod port_execution;
pub mod prng;
pub mod recompute_rail_cluster;
pub mod retreat;
pub mod shared_water;
pub mod spawn_tiles;
pub mod state;
pub mod structure_value;
pub mod territory;
pub mod unit_type;
pub mod util;

verus! {

} // verus!
