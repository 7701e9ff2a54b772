//! The fixed-schema decoder: replays the pointer walk through the target's
//! statistics layout and assembles one whole [`Stats`] record.
//!
//! The walk is fixed, not configurable: from a fixed entry offset past the
//! module base, a pointer is dereferenced, dereferenced again a little
//! further on, and a fixed displacement from the result is the head of the
//! primary block of counters. The primary block interleaves each 8-byte
//! counter with 32 bytes of unrelated data. After the leading scalar
//! counters come four category blocks; each contributes its first counter
//! from the primary block and the rest from a secondary list reached
//! through two more pointer dereferences, one counter every 0x10-byte skip.
//! One counter — monkey kills — is read from the tail of the primary block
//! rather than from its category's secondary list; that asymmetry is a
//! captured fact of the target's layout and is preserved here.
//!
//! Every offset below is a compile-time constant tied to one known build of
//! the target process. Decoding is read-only: any unreadable address or
//! short block aborts the whole decode with a single error, and no partial
//! record is ever produced.

use vstd::prelude::*;

use crate::memory::{
    le32_at, le64_at, le64_seq, lemma_le64_from_buffer, lemma_run_len_bounds, lemma_run_len_full,
    load_u64_le, readable, MemSnapshot,
};
use crate::stats::{EnemyDeaths, EnemyKills, LevelDeaths, MiscDeaths, Stats};

verus! {

/// Offset past the module base of the pointer that starts the walk.
pub const STATS_ENTRY_OFFSET: u64 = 0x0018_f124;

/// Offset into the first pointed-to object of the second pointer.
pub const SECOND_POINTER_OFFSET: u64 = 0x4;

/// Displacement from the second pointer's target to the primary block.
pub const BLOCK_DISPLACEMENT: u64 = 0xd58;

/// Length of the primary counter block in bytes.
pub const PRIMARY_BLOCK_LEN: usize = 0x2d8;

/// Bytes skipped past each secondary list's pointer before its counters.
pub const LIST_HEADER_SKIP: u64 = 0x20;

/// Position in the primary block of each category's first counter, and of
/// the slot holding the pointer to its secondary list.
pub const LEVEL_HEAD_POS: usize = 560;
pub const LEVEL_PTR_POS: u64 = 576;
pub const LEVEL_LIST_LEN: usize = 0x158;
pub const ENEMY_HEAD_POS: usize = 600;
pub const ENEMY_PTR_POS: u64 = 616;
pub const ENEMY_LIST_LEN: usize = 0x218;
pub const MISC_HEAD_POS: usize = 640;
pub const MISC_PTR_POS: u64 = 656;
pub const MISC_LIST_LEN: usize = 0xf8;
pub const KILLS_HEAD_POS: usize = 680;
pub const KILLS_PTR_POS: u64 = 696;
pub const KILLS_LIST_LEN: usize = 0x1e8;

/// Position in the primary block of the monkey-kills counter.
pub const MONKEY_POS: usize = 720;

/// The single decode failure: a required pointer target was unreadable or
/// a block came back short. Callers treat every decode failure alike, as
/// "try again shortly".
#[derive(Clone, Copy, Debug, PartialEq, Eq, Structural)]
pub struct DecodeError;

/// Where a category's secondary counter list starts: the pointer in the
/// primary block's slot is dereferenced, dereferenced once more, and the
/// fixed header skip is added. `None` when either dereference target is
/// unreadable.
pub open spec fn spec_list_head(m: Map<int, u8>, slot: int) -> Option<int> {
    if !readable(m, slot, 4) {
        Option::None
    } else {
        let first: int = le32_at(m, slot);
        if !readable(m, first, 4) {
            Option::None
        } else {
            Option::Some(le32_at(m, first) + LIST_HEADER_SKIP)
        }
    }
}

/// The LevelDeaths category as the fixed layout stores it, or `None` when its
/// pointer chain or secondary list is not fully readable.
pub open spec fn spec_level_deaths(m: Map<int, u8>, blk: int) -> Option<LevelDeaths> {
    match spec_list_head(m, blk + LEVEL_PTR_POS) {
        Option::None => Option::None,
        Option::Some(lst) => if !readable(m, lst, LEVEL_LIST_LEN as int) {
            Option::None
        } else {
            Option::Some(LevelDeaths {
                level_1: le64_at(m, blk + LEVEL_HEAD_POS),
                level_2: le64_at(m, lst + 0),
                level_3: le64_at(m, lst + 24),
                level_4: le64_at(m, lst + 48),
                level_5: le64_at(m, lst + 72),
                level_6: le64_at(m, lst + 96),
                level_7: le64_at(m, lst + 120),
                level_8: le64_at(m, lst + 144),
                level_9: le64_at(m, lst + 168),
                level_10: le64_at(m, lst + 192),
                level_11: le64_at(m, lst + 216),
                level_12: le64_at(m, lst + 240),
                level_13: le64_at(m, lst + 264),
                level_14: le64_at(m, lst + 288),
                level_15: le64_at(m, lst + 312),
                level_16: le64_at(m, lst + 336),
            })
        },
    }
}

/// The EnemyDeaths category as the fixed layout stores it, or `None` when its
/// pointer chain or secondary list is not fully readable.
pub open spec fn spec_enemy_deaths(m: Map<int, u8>, blk: int) -> Option<EnemyDeaths> {
    match spec_list_head(m, blk + ENEMY_PTR_POS) {
        Option::None => Option::None,
        Option::Some(lst) => if !readable(m, lst, ENEMY_LIST_LEN as int) {
            Option::None
        } else {
            Option::Some(EnemyDeaths {
                bat: le64_at(m, blk + ENEMY_HEAD_POS),
                snake: le64_at(m, lst + 0),
                spider: le64_at(m, lst + 24),
                giant_spider: le64_at(m, lst + 48),
                caveman: le64_at(m, lst + 72),
                skeleton: le64_at(m, lst + 96),
                zombie: le64_at(m, lst + 120),
                vampire: le64_at(m, lst + 144),
                frog: le64_at(m, lst + 168),
                fire_frog: le64_at(m, lst + 192),
                mantrap: le64_at(m, lst + 216),
                piranha: le64_at(m, lst + 240),
                megamouth: le64_at(m, lst + 264),
                yeti: le64_at(m, lst + 288),
                yeti_king: le64_at(m, lst + 312),
                alien: le64_at(m, lst + 336),
                ufo: le64_at(m, lst + 360),
                alien_boss: le64_at(m, lst + 384),
                hawkman: le64_at(m, lst + 408),
                shopkeeper: le64_at(m, lst + 432),
                tomb_lord: le64_at(m, lst + 456),
                magma_man: le64_at(m, lst + 480),
                olmec: le64_at(m, lst + 504),
                ghost_enemy: le64_at(m, lst + 528),
            })
        },
    }
}

/// The MiscDeaths category as the fixed layout stores it, or `None` when its
/// pointer chain or secondary list is not fully readable.
pub open spec fn spec_misc_deaths(m: Map<int, u8>, blk: int) -> Option<MiscDeaths> {
    match spec_list_head(m, blk + MISC_PTR_POS) {
        Option::None => Option::None,
        Option::Some(lst) => if !readable(m, lst, MISC_LIST_LEN as int) {
            Option::None
        } else {
            Option::Some(MiscDeaths {
                rock: le64_at(m, blk + MISC_HEAD_POS),
                explosion: le64_at(m, lst + 0),
                crushed: le64_at(m, lst + 24),
                long_fall: le64_at(m, lst + 48),
                spikes: le64_at(m, lst + 72),
                boulder: le64_at(m, lst + 96),
                arrow_trap: le64_at(m, lst + 120),
                spear_trap: le64_at(m, lst + 144),
                smash_trap: le64_at(m, lst + 168),
                ceiling_trap: le64_at(m, lst + 192),
                pit: le64_at(m, lst + 216),
                lava: le64_at(m, lst + 240),
            })
        },
    }
}

/// The EnemyKills category as the fixed layout stores it, or `None` when its
/// pointer chain or secondary list is not fully readable.
pub open spec fn spec_enemy_kills(m: Map<int, u8>, blk: int) -> Option<EnemyKills> {
    match spec_list_head(m, blk + KILLS_PTR_POS) {
        Option::None => Option::None,
        Option::Some(lst) => if !readable(m, lst, KILLS_LIST_LEN as int) {
            Option::None
        } else {
            Option::Some(EnemyKills {
                bat: le64_at(m, blk + KILLS_HEAD_POS),
                monkey: le64_at(m, blk + MONKEY_POS),
                snake: le64_at(m, lst + 0),
                spider: le64_at(m, lst + 24),
                giant_spider: le64_at(m, lst + 48),
                caveman: le64_at(m, lst + 72),
                skeleton: le64_at(m, lst + 96),
                zombie: le64_at(m, lst + 120),
                vampire: le64_at(m, lst + 144),
                frog: le64_at(m, lst + 168),
                fire_frog: le64_at(m, lst + 192),
                mantrap: le64_at(m, lst + 216),
                piranha: le64_at(m, lst + 240),
                megamouth: le64_at(m, lst + 264),
                yeti: le64_at(m, lst + 288),
                yeti_king: le64_at(m, lst + 312),
                alien: le64_at(m, lst + 336),
                ufo: le64_at(m, lst + 360),
                alien_boss: le64_at(m, lst + 384),
                hawkman: le64_at(m, lst + 408),
                shopkeeper: le64_at(m, lst + 432),
                tomb_lord: le64_at(m, lst + 456),
                olmec: le64_at(m, lst + 480),
            })
        },
    }
}

/// The record held at primary block `blk`, given that the whole primary
/// block is readable; `None` when any category's chain fails.
pub open spec fn spec_decode_at(m: Map<int, u8>, blk: int) -> Option<Stats> {
    let ld = spec_level_deaths(m, blk);
    let ed = spec_enemy_deaths(m, blk);
    let md = spec_misc_deaths(m, blk);
    let ek = spec_enemy_kills(m, blk);
    if ld is None || ed is None || md is None || ek is None {
        Option::None
    } else {
        Option::Some(Stats {
            crates_opened: le64_at(m, blk + 0),
            chests_opened: le64_at(m, blk + 40),
            idols_grabbed: le64_at(m, blk + 80),
            idols_converted: le64_at(m, blk + 120),
            damsels_grabbed: le64_at(m, blk + 160),
            kisses_bought: le64_at(m, blk + 200),
            damsels_bought: le64_at(m, blk + 240),
            damsels_saved: le64_at(m, blk + 280),
            damsels_killed: le64_at(m, blk + 320),
            items_bought: le64_at(m, blk + 360),
            items_stolen: le64_at(m, blk + 400),
            dice_games_played: le64_at(m, blk + 440),
            dice_games_won: le64_at(m, blk + 480),
            dice_games_lost: le64_at(m, blk + 520),
            level_deaths: ld->Some_0,
            enemy_deaths: ed->Some_0,
            misc_deaths: md->Some_0,
            enemy_kills: ek->Some_0,
        })
    }
}

/// The outcome of decoding one record from memory image `m` with module
/// base `base`: the fully populated record, or `None` when any pointer
/// dereference target or block along the fixed walk is not fully readable.
pub open spec fn spec_decode(m: Map<int, u8>, base: int) -> Option<Stats> {
    if !readable(m, base + STATS_ENTRY_OFFSET, 4) {
        Option::None
    } else {
        let p1: int = le32_at(m, base + STATS_ENTRY_OFFSET);
        if !readable(m, p1 + SECOND_POINTER_OFFSET, 4) {
            Option::None
        } else {
            let blk: int = le32_at(m, p1 + SECOND_POINTER_OFFSET) + BLOCK_DISPLACEMENT;
            if !readable(m, blk, PRIMARY_BLOCK_LEN as int) {
                Option::None
            } else {
                spec_decode_at(m, blk)
            }
        }
    }
}

fn decode_level_deaths(mem: &MemSnapshot, blk: u64, primary: &Vec<u8>) -> (r: Result<LevelDeaths, DecodeError>)
    requires
        blk + PRIMARY_BLOCK_LEN <= u64::MAX,
        primary@.len() == PRIMARY_BLOCK_LEN,
        forall|i: int| 0 <= i < primary@.len() ==> #[trigger] primary@[i] == mem@[blk + i],
    ensures
        r is Ok <==> spec_level_deaths(mem@, blk as int) is Some,
        r matches Ok(v) ==> spec_level_deaths(mem@, blk as int) == Some(v),
{
    let first_ptr: u32 = match mem.read_u32(blk + LEVEL_PTR_POS) {
        Ok(v) => v,
        Err(_) => {
            return Err(DecodeError);
        },
    };
    let second_ptr: u32 = match mem.read_u32(first_ptr as u64) {
        Ok(v) => v,
        Err(_) => {
            return Err(DecodeError);
        },
    };
    let lst: u64 = second_ptr as u64 + LIST_HEADER_SKIP;
    let sec: Vec<u8> = match mem.read_bytes(lst, LEVEL_LIST_LEN) {
        Ok(b) => b,
        Err(_) => {
            return Err(DecodeError);
        },
    };
    proof {
        lemma_run_len_bounds(mem@, lst as int, LEVEL_LIST_LEN as int);
        lemma_run_len_full(mem@, lst as int, LEVEL_LIST_LEN as int);
    }
    if sec.len() < LEVEL_LIST_LEN {
        return Err(DecodeError);
    }
    proof {
        lemma_le64_from_buffer(mem@, blk as int, primary@, LEVEL_HEAD_POS as int);
        lemma_le64_from_buffer(mem@, lst as int, sec@, 0);
        lemma_le64_from_buffer(mem@, lst as int, sec@, 24);
        lemma_le64_from_buffer(mem@, lst as int, sec@, 48);
        lemma_le64_from_buffer(mem@, lst as int, sec@, 72);
        lemma_le64_from_buffer(mem@, lst as int, sec@, 96);
        lemma_le64_from_buffer(mem@, lst as int, sec@, 120);
        lemma_le64_from_buffer(mem@, lst as int, sec@, 144);
        lemma_le64_from_buffer(mem@, lst as int, sec@, 168);
        lemma_le64_from_buffer(mem@, lst as int, sec@, 192);
        lemma_le64_from_buffer(mem@, lst as int, sec@, 216);
        lemma_le64_from_buffer(mem@, lst as int, sec@, 240);
        lemma_le64_from_buffer(mem@, lst as int, sec@, 264);
        lemma_le64_from_buffer(mem@, lst as int, sec@, 288);
        lemma_le64_from_buffer(mem@, lst as int, sec@, 312);
        lemma_le64_from_buffer(mem@, lst as int, sec@, 336);
    }
    Ok(LevelDeaths {
        level_1: load_u64_le(primary, LEVEL_HEAD_POS),
        level_2: load_u64_le(&sec, 0),
        level_3: load_u64_le(&sec, 24),
        level_4: load_u64_le(&sec, 48),
        level_5: load_u64_le(&sec, 72),
        level_6: load_u64_le(&sec, 96),
        level_7: load_u64_le(&sec, 120),
        level_8: load_u64_le(&sec, 144),
        level_9: load_u64_le(&sec, 168),
        level_10: load_u64_le(&sec, 192),
        level_11: load_u64_le(&sec, 216),
        level_12: load_u64_le(&sec, 240),
        level_13: load_u64_le(&sec, 264),
        level_14: load_u64_le(&sec, 288),
        level_15: load_u64_le(&sec, 312),
        level_16: load_u64_le(&sec, 336),
    })
}

fn decode_enemy_deaths(mem: &MemSnapshot, blk: u64, primary: &Vec<u8>) -> (r: Result<EnemyDeaths, DecodeError>)
    requires
        blk + PRIMARY_BLOCK_LEN <= u64::MAX,
        primary@.len() == PRIMARY_BLOCK_LEN,
        forall|i: int| 0 <= i < primary@.len() ==> #[trigger] primary@[i] == mem@[blk + i],
    ensures
        r is Ok <==> spec_enemy_deaths(mem@, blk as int) is Some,
        r matches Ok(v) ==> spec_enemy_deaths(mem@, blk as int) == Some(v),
{
    let first_ptr: u32 = match mem.read_u32(blk + ENEMY_PTR_POS) {
        Ok(v) => v,
        Err(_) => {
            return Err(DecodeError);
        },
    };
    let second_ptr: u32 = match mem.read_u32(first_ptr as u64) {
        Ok(v) => v,
        Err(_) => {
            return Err(DecodeError);
        },
    };
    let lst: u64 = second_ptr as u64 + LIST_HEADER_SKIP;
    let sec: Vec<u8> = match mem.read_bytes(lst, ENEMY_LIST_LEN) {
        Ok(b) => b,
        Err(_) => {
            return Err(DecodeError);
        },
    };
    proof {
        lemma_run_len_bounds(mem@, lst as int, ENEMY_LIST_LEN as int);
        lemma_run_len_full(mem@, lst as int, ENEMY_LIST_LEN as int);
    }
    if sec.len() < ENEMY_LIST_LEN {
        return Err(DecodeError);
    }
    proof {
        lemma_le64_from_buffer(mem@, blk as int, primary@, ENEMY_HEAD_POS as int);
        lemma_le64_from_buffer(mem@, lst as int, sec@, 0);
        lemma_le64_from_buffer(mem@, lst as int, sec@, 24);
        lemma_le64_from_buffer(mem@, lst as int, sec@, 48);
        lemma_le64_from_buffer(mem@, lst as int, sec@, 72);
        lemma_le64_from_buffer(mem@, lst as int, sec@, 96);
        lemma_le64_from_buffer(mem@, lst as int, sec@, 120);
        lemma_le64_from_buffer(mem@, lst as int, sec@, 144);
        lemma_le64_from_buffer(mem@, lst as int, sec@, 168);
        lemma_le64_from_buffer(mem@, lst as int, sec@, 192);
        lemma_le64_from_buffer(mem@, lst as int, sec@, 216);
        lemma_le64_from_buffer(mem@, lst as int, sec@, 240);
        lemma_le64_from_buffer(mem@, lst as int, sec@, 264);
        lemma_le64_from_buffer(mem@, lst as int, sec@, 288);
        lemma_le64_from_buffer(mem@, lst as int, sec@, 312);
        lemma_le64_from_buffer(mem@, lst as int, sec@, 336);
        lemma_le64_from_buffer(mem@, lst as int, sec@, 360);
        lemma_le64_from_buffer(mem@, lst as int, sec@, 384);
        lemma_le64_from_buffer(mem@, lst as int, sec@, 408);
        lemma_le64_from_buffer(mem@, lst as int, sec@, 432);
        lemma_le64_from_buffer(mem@, lst as int, sec@, 456);
        lemma_le64_from_buffer(mem@, lst as int, sec@, 480);
        lemma_le64_from_buffer(mem@, lst as int, sec@, 504);
        lemma_le64_from_buffer(mem@, lst as int, sec@, 528);
    }
    Ok(EnemyDeaths {
        bat: load_u64_le(primary, ENEMY_HEAD_POS),
        snake: load_u64_le(&sec, 0),
        spider: load_u64_le(&sec, 24),
        giant_spider: load_u64_le(&sec, 48),
        caveman: load_u64_le(&sec, 72),
        skeleton: load_u64_le(&sec, 96),
        zombie: load_u64_le(&sec, 120),
        vampire: load_u64_le(&sec, 144),
        frog: load_u64_le(&sec, 168),
        fire_frog: load_u64_le(&sec, 192),
        mantrap: load_u64_le(&sec, 216),
        piranha: load_u64_le(&sec, 240),
        megamouth: load_u64_le(&sec, 264),
        yeti: load_u64_le(&sec, 288),
        yeti_king: load_u64_le(&sec, 312),
        alien: load_u64_le(&sec, 336),
        ufo: load_u64_le(&sec, 360),
        alien_boss: load_u64_le(&sec, 384),
        hawkman: load_u64_le(&sec, 408),
        shopkeeper: load_u64_le(&sec, 432),
        tomb_lord: load_u64_le(&sec, 456),
        magma_man: load_u64_le(&sec, 480),
        olmec: load_u64_le(&sec, 504),
        ghost_enemy: load_u64_le(&sec, 528),
    })
}

fn decode_misc_deaths(mem: &MemSnapshot, blk: u64, primary: &Vec<u8>) -> (r: Result<MiscDeaths, DecodeError>)
    requires
        blk + PRIMARY_BLOCK_LEN <= u64::MAX,
        primary@.len() == PRIMARY_BLOCK_LEN,
        forall|i: int| 0 <= i < primary@.len() ==> #[trigger] primary@[i] == mem@[blk + i],
    ensures
        r is Ok <==> spec_misc_deaths(mem@, blk as int) is Some,
        r matches Ok(v) ==> spec_misc_deaths(mem@, blk as int) == Some(v),
{
    let first_ptr: u32 = match mem.read_u32(blk + MISC_PTR_POS) {
        Ok(v) => v,
        Err(_) => {
            return Err(DecodeError);
        },
    };
    let second_ptr: u32 = match mem.read_u32(first_ptr as u64) {
        Ok(v) => v,
        Err(_) => {
            return Err(DecodeError);
        },
    };
    let lst: u64 = second_ptr as u64 + LIST_HEADER_SKIP;
    let sec: Vec<u8> = match mem.read_bytes(lst, MISC_LIST_LEN) {
        Ok(b) => b,
        Err(_) => {
            return Err(DecodeError);
        },
    };
    proof {
        lemma_run_len_bounds(mem@, lst as int, MISC_LIST_LEN as int);
        lemma_run_len_full(mem@, lst as int, MISC_LIST_LEN as int);
    }
    if sec.len() < MISC_LIST_LEN {
        return Err(DecodeError);
    }
    proof {
        lemma_le64_from_buffer(mem@, blk as int, primary@, MISC_HEAD_POS as int);
        lemma_le64_from_buffer(mem@, lst as int, sec@, 0);
        lemma_le64_from_buffer(mem@, lst as int, sec@, 24);
        lemma_le64_from_buffer(mem@, lst as int, sec@, 48);
        lemma_le64_from_buffer(mem@, lst as int, sec@, 72);
        lemma_le64_from_buffer(mem@, lst as int, sec@, 96);
        lemma_le64_from_buffer(mem@, lst as int, sec@, 120);
        lemma_le64_from_buffer(mem@, lst as int, sec@, 144);
        lemma_le64_from_buffer(mem@, lst as int, sec@, 168);
        lemma_le64_from_buffer(mem@, lst as int, sec@, 192);
        lemma_le64_from_buffer(mem@, lst as int, sec@, 216);
        lemma_le64_from_buffer(mem@, lst as int, sec@, 240);
    }
    Ok(MiscDeaths {
        rock: load_u64_le(primary, MISC_HEAD_POS),
        explosion: load_u64_le(&sec, 0),
        crushed: load_u64_le(&sec, 24),
        long_fall: load_u64_le(&sec, 48),
        spikes: load_u64_le(&sec, 72),
        boulder: load_u64_le(&sec, 96),
        arrow_trap: load_u64_le(&sec, 120),
        spear_trap: load_u64_le(&sec, 144),
        smash_trap: load_u64_le(&sec, 168),
        ceiling_trap: load_u64_le(&sec, 192),
        pit: load_u64_le(&sec, 216),
        lava: load_u64_le(&sec, 240),
    })
}

fn decode_enemy_kills(mem: &MemSnapshot, blk: u64, primary: &Vec<u8>) -> (r: Result<EnemyKills, DecodeError>)
    requires
        blk + PRIMARY_BLOCK_LEN <= u64::MAX,
        primary@.len() == PRIMARY_BLOCK_LEN,
        forall|i: int| 0 <= i < primary@.len() ==> #[trigger] primary@[i] == mem@[blk + i],
    ensures
        r is Ok <==> spec_enemy_kills(mem@, blk as int) is Some,
        r matches Ok(v) ==> spec_enemy_kills(mem@, blk as int) == Some(v),
{
    let first_ptr: u32 = match mem.read_u32(blk + KILLS_PTR_POS) {
        Ok(v) => v,
        Err(_) => {
            return Err(DecodeError);
        },
    };
    let second_ptr: u32 = match mem.read_u32(first_ptr as u64) {
        Ok(v) => v,
        Err(_) => {
            return Err(DecodeError);
        },
    };
    let lst: u64 = second_ptr as u64 + LIST_HEADER_SKIP;
    let sec: Vec<u8> = match mem.read_bytes(lst, KILLS_LIST_LEN) {
        Ok(b) => b,
        Err(_) => {
            return Err(DecodeError);
        },
    };
    proof {
        lemma_run_len_bounds(mem@, lst as int, KILLS_LIST_LEN as int);
        lemma_run_len_full(mem@, lst as int, KILLS_LIST_LEN as int);
    }
    if sec.len() < KILLS_LIST_LEN {
        return Err(DecodeError);
    }
    proof {
        lemma_le64_from_buffer(mem@, blk as int, primary@, KILLS_HEAD_POS as int);
        lemma_le64_from_buffer(mem@, blk as int, primary@, MONKEY_POS as int);
        lemma_le64_from_buffer(mem@, lst as int, sec@, 0);
        lemma_le64_from_buffer(mem@, lst as int, sec@, 24);
        lemma_le64_from_buffer(mem@, lst as int, sec@, 48);
        lemma_le64_from_buffer(mem@, lst as int, sec@, 72);
        lemma_le64_from_buffer(mem@, lst as int, sec@, 96);
        lemma_le64_from_buffer(mem@, lst as int, sec@, 120);
        lemma_le64_from_buffer(mem@, lst as int, sec@, 144);
        lemma_le64_from_buffer(mem@, lst as int, sec@, 168);
        lemma_le64_from_buffer(mem@, lst as int, sec@, 192);
        lemma_le64_from_buffer(mem@, lst as int, sec@, 216);
        lemma_le64_from_buffer(mem@, lst as int, sec@, 240);
        lemma_le64_from_buffer(mem@, lst as int, sec@, 264);
        lemma_le64_from_buffer(mem@, lst as int, sec@, 288);
        lemma_le64_from_buffer(mem@, lst as int, sec@, 312);
        lemma_le64_from_buffer(mem@, lst as int, sec@, 336);
        lemma_le64_from_buffer(mem@, lst as int, sec@, 360);
        lemma_le64_from_buffer(mem@, lst as int, sec@, 384);
        lemma_le64_from_buffer(mem@, lst as int, sec@, 408);
        lemma_le64_from_buffer(mem@, lst as int, sec@, 432);
        lemma_le64_from_buffer(mem@, lst as int, sec@, 456);
        lemma_le64_from_buffer(mem@, lst as int, sec@, 480);
    }
    Ok(EnemyKills {
        bat: load_u64_le(primary, KILLS_HEAD_POS),
        monkey: load_u64_le(primary, MONKEY_POS),
        snake: load_u64_le(&sec, 0),
        spider: load_u64_le(&sec, 24),
        giant_spider: load_u64_le(&sec, 48),
        caveman: load_u64_le(&sec, 72),
        skeleton: load_u64_le(&sec, 96),
        zombie: load_u64_le(&sec, 120),
        vampire: load_u64_le(&sec, 144),
        frog: load_u64_le(&sec, 168),
        fire_frog: load_u64_le(&sec, 192),
        mantrap: load_u64_le(&sec, 216),
        piranha: load_u64_le(&sec, 240),
        megamouth: load_u64_le(&sec, 264),
        yeti: load_u64_le(&sec, 288),
        yeti_king: load_u64_le(&sec, 312),
        alien: load_u64_le(&sec, 336),
        ufo: load_u64_le(&sec, 360),
        alien_boss: load_u64_le(&sec, 384),
        hawkman: load_u64_le(&sec, 408),
        shopkeeper: load_u64_le(&sec, 432),
        tomb_lord: load_u64_le(&sec, 456),
        olmec: load_u64_le(&sec, 480),
    })
}

impl Stats {
    /// Decodes one whole statistics record from the snapshot, walking the
    /// fixed pointer chain from `base`. Returns the record exactly when
    /// every dereference target and block along the walk is readable.
    pub fn from_memory(mem: &MemSnapshot, base: u64) -> (r: Result<Stats, DecodeError>)
        requires
            base + STATS_ENTRY_OFFSET + 4 <= u64::MAX,
        ensures
            r is Ok <==> spec_decode(mem@, base as int) is Some,
            r matches Ok(s) ==> spec_decode(mem@, base as int) == Some(s),
    {
        let first_ptr: u32 = match mem.read_u32(base + STATS_ENTRY_OFFSET) {
            Ok(v) => v,
            Err(_) => {
                return Err(DecodeError);
            },
        };
        let second_ptr: u32 = match mem.read_u32(first_ptr as u64 + SECOND_POINTER_OFFSET) {
            Ok(v) => v,
            Err(_) => {
                return Err(DecodeError);
            },
        };
        let blk: u64 = second_ptr as u64 + BLOCK_DISPLACEMENT;
        let primary: Vec<u8> = match mem.read_bytes(blk, PRIMARY_BLOCK_LEN) {
            Ok(b) => b,
            Err(_) => {
                return Err(DecodeError);
            },
        };
        proof {
            lemma_run_len_bounds(mem@, blk as int, PRIMARY_BLOCK_LEN as int);
            lemma_run_len_full(mem@, blk as int, PRIMARY_BLOCK_LEN as int);
        }
        if primary.len() < PRIMARY_BLOCK_LEN {
            return Err(DecodeError);
        }
        let level_deaths: LevelDeaths = match decode_level_deaths(mem, blk, &primary) {
            Ok(v) => v,
            Err(e) => {
                return Err(e);
            },
        };
        let enemy_deaths: EnemyDeaths = match decode_enemy_deaths(mem, blk, &primary) {
            Ok(v) => v,
            Err(e) => {
                return Err(e);
            },
        };
        let misc_deaths: MiscDeaths = match decode_misc_deaths(mem, blk, &primary) {
            Ok(v) => v,
            Err(e) => {
                return Err(e);
            },
        };
        let enemy_kills: EnemyKills = match decode_enemy_kills(mem, blk, &primary) {
            Ok(v) => v,
            Err(e) => {
                return Err(e);
            },
        };
        proof {
            lemma_le64_from_buffer(mem@, blk as int, primary@, 0);
            lemma_le64_from_buffer(mem@, blk as int, primary@, 40);
            lemma_le64_from_buffer(mem@, blk as int, primary@, 80);
            lemma_le64_from_buffer(mem@, blk as int, primary@, 120);
            lemma_le64_from_buffer(mem@, blk as int, primary@, 160);
            lemma_le64_from_buffer(mem@, blk as int, primary@, 200);
            lemma_le64_from_buffer(mem@, blk as int, primary@, 240);
            lemma_le64_from_buffer(mem@, blk as int, primary@, 280);
            lemma_le64_from_buffer(mem@, blk as int, primary@, 320);
            lemma_le64_from_buffer(mem@, blk as int, primary@, 360);
            lemma_le64_from_buffer(mem@, blk as int, primary@, 400);
            lemma_le64_from_buffer(mem@, blk as int, primary@, 440);
            lemma_le64_from_buffer(mem@, blk as int, primary@, 480);
            lemma_le64_from_buffer(mem@, blk as int, primary@, 520);
        }
        Ok(Stats {
            crates_opened: load_u64_le(&primary, 0),
            chests_opened: load_u64_le(&primary, 40),
            idols_grabbed: load_u64_le(&primary, 80),
            idols_converted: load_u64_le(&primary, 120),
            damsels_grabbed: load_u64_le(&primary, 160),
            kisses_bought: load_u64_le(&primary, 200),
            damsels_bought: load_u64_le(&primary, 240),
            damsels_saved: load_u64_le(&primary, 280),
            damsels_killed: load_u64_le(&primary, 320),
            items_bought: load_u64_le(&primary, 360),
            items_stolen: load_u64_le(&primary, 400),
            dice_games_played: load_u64_le(&primary, 440),
            dice_games_won: load_u64_le(&primary, 480),
            dice_games_lost: load_u64_le(&primary, 520),
            level_deaths,
            enemy_deaths,
            misc_deaths,
            enemy_kills,
        })
    }

    /// Replaces this record with a freshly decoded one. On any decode
    /// failure the record is left exactly as it was: no partial update is
    /// ever visible.
    pub fn update_from_memory(&mut self, mem: &MemSnapshot, base: u64) -> (r: Result<(), DecodeError>)
        requires
            base + STATS_ENTRY_OFFSET + 4 <= u64::MAX,
        ensures
            r is Ok <==> spec_decode(mem@, base as int) is Some,
            r is Ok ==> Some(*final(self)) == spec_decode(mem@, base as int),
            r is Err ==> *final(self) == *old(self),
    {
        match Stats::from_memory(mem, base) {
            Ok(s) => {
                *self = s;
                Ok(())
            },
            Err(e) => Err(e),
        }
    }
}

/// Decoding is a pure function of the memory image and the base address:
/// decoding twice from an unchanged image yields the same outcome, so two
/// successful decodes yield records that are equal in every field.
pub proof fn lemma_decode_deterministic(m1: Map<int, u8>, m2: Map<int, u8>, base: int)
    requires
        m1 == m2,
    ensures
        spec_decode(m1, base) == spec_decode(m2, base),
{
}

/// A record is only produced when every dereference target along the walk
/// — both entry pointers, the whole primary block, and each category's
/// pointer slots and secondary list — was readable. Contrapositively, if
/// any required range lies outside the readable memory, no record at all is
/// observable: decoding never yields a record with only some categories
/// filled.
pub proof fn lemma_success_requires_readable(m: Map<int, u8>, base: int)
    ensures
        spec_decode(m, base) is Some ==> {
            let p1 = le32_at(m, base + STATS_ENTRY_OFFSET);
            let blk = le32_at(m, p1 + SECOND_POINTER_OFFSET) + BLOCK_DISPLACEMENT;
            &&& readable(m, base + STATS_ENTRY_OFFSET, 4)
            &&& readable(m, p1 + SECOND_POINTER_OFFSET, 4)
            &&& readable(m, blk, PRIMARY_BLOCK_LEN as int)
            &&& spec_list_head(m, blk + LEVEL_PTR_POS) is Some
            &&& readable(m, spec_list_head(m, blk + LEVEL_PTR_POS)->Some_0, LEVEL_LIST_LEN as int)
            &&& spec_list_head(m, blk + ENEMY_PTR_POS) is Some
            &&& readable(m, spec_list_head(m, blk + ENEMY_PTR_POS)->Some_0, ENEMY_LIST_LEN as int)
            &&& spec_list_head(m, blk + MISC_PTR_POS) is Some
            &&& readable(m, spec_list_head(m, blk + MISC_PTR_POS)->Some_0, MISC_LIST_LEN as int)
            &&& spec_list_head(m, blk + KILLS_PTR_POS) is Some
            &&& readable(m, spec_list_head(m, blk + KILLS_PTR_POS)->Some_0, KILLS_LIST_LEN as int)
        },
{
}

} // verus!
