//! The statistics record decoded from the target's memory.
//!
//! The target process stores every counter as a 64-bit floating-point value
//! even though each one represents an integer count. This crate preserves
//! that representation faithfully by holding each counter as the raw 64-bit
//! little-endian bit pattern read from the target's memory; it never rounds,
//! converts or interprets the value. Equality between two records is exact
//! equality of every counter's bit pattern, which is what byte-identical
//! monotonic counters call for.

use vstd::prelude::*;

verus! {

/// One death counter per game level, in level order.
#[derive(Clone, Copy, Debug, PartialEq, Eq, Structural)]
pub struct LevelDeaths {
    pub level_1: u64,
    pub level_2: u64,
    pub level_3: u64,
    pub level_4: u64,
    pub level_5: u64,
    pub level_6: u64,
    pub level_7: u64,
    pub level_8: u64,
    pub level_9: u64,
    pub level_10: u64,
    pub level_11: u64,
    pub level_12: u64,
    pub level_13: u64,
    pub level_14: u64,
    pub level_15: u64,
    pub level_16: u64,
}

/// Deaths caused by each named enemy.
#[derive(Clone, Copy, Debug, PartialEq, Eq, Structural)]
pub struct EnemyDeaths {
    pub bat: u64,
    pub snake: u64,
    pub spider: u64,
    pub giant_spider: u64,
    pub caveman: u64,
    pub skeleton: u64,
    pub zombie: u64,
    pub vampire: u64,
    pub frog: u64,
    pub fire_frog: u64,
    pub mantrap: u64,
    pub piranha: u64,
    pub megamouth: u64,
    pub yeti: u64,
    pub yeti_king: u64,
    pub alien: u64,
    pub ufo: u64,
    pub alien_boss: u64,
    pub hawkman: u64,
    pub shopkeeper: u64,
    pub tomb_lord: u64,
    pub magma_man: u64,
    pub olmec: u64,
    pub ghost_enemy: u64,
}

/// Deaths from environmental causes.
#[derive(Clone, Copy, Debug, PartialEq, Eq, Structural)]
pub struct MiscDeaths {
    pub rock: u64,
    pub explosion: u64,
    pub crushed: u64,
    pub long_fall: u64,
    pub spikes: u64,
    pub boulder: u64,
    pub arrow_trap: u64,
    pub spear_trap: u64,
    pub smash_trap: u64,
    pub ceiling_trap: u64,
    pub pit: u64,
    pub lava: u64,
}

/// Kills of each named enemy.
#[derive(Clone, Copy, Debug, PartialEq, Eq, Structural)]
pub struct EnemyKills {
    pub bat: u64,
    pub snake: u64,
    pub spider: u64,
    pub giant_spider: u64,
    pub caveman: u64,
    pub skeleton: u64,
    pub zombie: u64,
    pub vampire: u64,
    pub frog: u64,
    pub monkey: u64,
    pub fire_frog: u64,
    pub mantrap: u64,
    pub piranha: u64,
    pub megamouth: u64,
    pub yeti: u64,
    pub yeti_king: u64,
    pub alien: u64,
    pub ufo: u64,
    pub alien_boss: u64,
    pub hawkman: u64,
    pub shopkeeper: u64,
    pub tomb_lord: u64,
    pub olmec: u64,
}

/// A full snapshot of all tracked counters at one point in time.
///
/// A record is only ever produced whole: decoding either fills every
/// field or fails, so no partially populated record is observable.
#[derive(Clone, Copy, Debug, PartialEq, Eq, Structural)]
pub struct Stats {
    pub crates_opened: u64,
    pub chests_opened: u64,
    pub idols_grabbed: u64,
    pub idols_converted: u64,
    pub damsels_grabbed: u64,
    pub kisses_bought: u64,
    pub damsels_bought: u64,
    pub damsels_saved: u64,
    pub damsels_killed: u64,
    pub items_bought: u64,
    pub items_stolen: u64,
    pub dice_games_played: u64,
    pub dice_games_won: u64,
    pub dice_games_lost: u64,
    pub level_deaths: LevelDeaths,
    pub enemy_deaths: EnemyDeaths,
    pub misc_deaths: MiscDeaths,
    pub enemy_kills: EnemyKills,
}

/// The all-zero LevelDeaths record.
pub open spec fn zero_level_deaths() -> LevelDeaths {
    LevelDeaths {
        level_1: 0,
        level_2: 0,
        level_3: 0,
        level_4: 0,
        level_5: 0,
        level_6: 0,
        level_7: 0,
        level_8: 0,
        level_9: 0,
        level_10: 0,
        level_11: 0,
        level_12: 0,
        level_13: 0,
        level_14: 0,
        level_15: 0,
        level_16: 0,
    }
}

/// The all-zero EnemyDeaths record.
pub open spec fn zero_enemy_deaths() -> EnemyDeaths {
    EnemyDeaths {
        bat: 0,
        snake: 0,
        spider: 0,
        giant_spider: 0,
        caveman: 0,
        skeleton: 0,
        zombie: 0,
        vampire: 0,
        frog: 0,
        fire_frog: 0,
        mantrap: 0,
        piranha: 0,
        megamouth: 0,
        yeti: 0,
        yeti_king: 0,
        alien: 0,
        ufo: 0,
        alien_boss: 0,
        hawkman: 0,
        shopkeeper: 0,
        tomb_lord: 0,
        magma_man: 0,
        olmec: 0,
        ghost_enemy: 0,
    }
}

/// The all-zero MiscDeaths record.
pub open spec fn zero_misc_deaths() -> MiscDeaths {
    MiscDeaths {
        rock: 0,
        explosion: 0,
        crushed: 0,
        long_fall: 0,
        spikes: 0,
        boulder: 0,
        arrow_trap: 0,
        spear_trap: 0,
        smash_trap: 0,
        ceiling_trap: 0,
        pit: 0,
        lava: 0,
    }
}

/// The all-zero EnemyKills record.
pub open spec fn zero_enemy_kills() -> EnemyKills {
    EnemyKills {
        bat: 0,
        snake: 0,
        spider: 0,
        giant_spider: 0,
        caveman: 0,
        skeleton: 0,
        zombie: 0,
        vampire: 0,
        frog: 0,
        monkey: 0,
        fire_frog: 0,
        mantrap: 0,
        piranha: 0,
        megamouth: 0,
        yeti: 0,
        yeti_king: 0,
        alien: 0,
        ufo: 0,
        alien_boss: 0,
        hawkman: 0,
        shopkeeper: 0,
        tomb_lord: 0,
        olmec: 0,
    }
}

/// The all-zero statistics record: every counter holds the bit pattern
/// of the floating-point value zero.
pub open spec fn zero_stats() -> Stats {
    Stats {
        crates_opened: 0,
        chests_opened: 0,
        idols_grabbed: 0,
        idols_converted: 0,
        damsels_grabbed: 0,
        kisses_bought: 0,
        damsels_bought: 0,
        damsels_saved: 0,
        damsels_killed: 0,
        items_bought: 0,
        items_stolen: 0,
        dice_games_played: 0,
        dice_games_won: 0,
        dice_games_lost: 0,
        level_deaths: zero_level_deaths(),
        enemy_deaths: zero_enemy_deaths(),
        misc_deaths: zero_misc_deaths(),
        enemy_kills: zero_enemy_kills(),
    }
}

impl Default for LevelDeaths {
    fn default() -> (s: LevelDeaths)
        ensures
            s == zero_level_deaths(),
    {
        LevelDeaths {
            level_1: 0,
            level_2: 0,
            level_3: 0,
            level_4: 0,
            level_5: 0,
            level_6: 0,
            level_7: 0,
            level_8: 0,
            level_9: 0,
            level_10: 0,
            level_11: 0,
            level_12: 0,
            level_13: 0,
            level_14: 0,
            level_15: 0,
            level_16: 0,
        }
    }
}

impl Default for EnemyDeaths {
    fn default() -> (s: EnemyDeaths)
        ensures
            s == zero_enemy_deaths(),
    {
        EnemyDeaths {
            bat: 0,
            snake: 0,
            spider: 0,
            giant_spider: 0,
            caveman: 0,
            skeleton: 0,
            zombie: 0,
            vampire: 0,
            frog: 0,
            fire_frog: 0,
            mantrap: 0,
            piranha: 0,
            megamouth: 0,
            yeti: 0,
            yeti_king: 0,
            alien: 0,
            ufo: 0,
            alien_boss: 0,
            hawkman: 0,
            shopkeeper: 0,
            tomb_lord: 0,
            magma_man: 0,
            olmec: 0,
            ghost_enemy: 0,
        }
    }
}

impl Default for MiscDeaths {
    fn default() -> (s: MiscDeaths)
        ensures
            s == zero_misc_deaths(),
    {
        MiscDeaths {
            rock: 0,
            explosion: 0,
            crushed: 0,
            long_fall: 0,
            spikes: 0,
            boulder: 0,
            arrow_trap: 0,
            spear_trap: 0,
            smash_trap: 0,
            ceiling_trap: 0,
            pit: 0,
            lava: 0,
        }
    }
}

impl Default for EnemyKills {
    fn default() -> (s: EnemyKills)
        ensures
            s == zero_enemy_kills(),
    {
        EnemyKills {
            bat: 0,
            snake: 0,
            spider: 0,
            giant_spider: 0,
            caveman: 0,
            skeleton: 0,
            zombie: 0,
            vampire: 0,
            frog: 0,
            monkey: 0,
            fire_frog: 0,
            mantrap: 0,
            piranha: 0,
            megamouth: 0,
            yeti: 0,
            yeti_king: 0,
            alien: 0,
            ufo: 0,
            alien_boss: 0,
            hawkman: 0,
            shopkeeper: 0,
            tomb_lord: 0,
            olmec: 0,
        }
    }
}

impl Default for Stats {
    fn default() -> (s: Stats)
        ensures
            s == zero_stats(),
    {
        Stats {
            crates_opened: 0,
            chests_opened: 0,
            idols_grabbed: 0,
            idols_converted: 0,
            damsels_grabbed: 0,
            kisses_bought: 0,
            damsels_bought: 0,
            damsels_saved: 0,
            damsels_killed: 0,
            items_bought: 0,
            items_stolen: 0,
            dice_games_played: 0,
            dice_games_won: 0,
            dice_games_lost: 0,
            level_deaths: LevelDeaths::default(),
            enemy_deaths: EnemyDeaths::default(),
            misc_deaths: MiscDeaths::default(),
            enemy_kills: EnemyKills::default(),
        }
    }
}

} // verus!
