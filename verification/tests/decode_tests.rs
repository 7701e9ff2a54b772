//! Decoder tests against synthetic memory snapshots: a fake in-memory
//! address space is populated with the fixed layout and decoded.

use classic_trackers::decode::DecodeError;
use classic_trackers::driver::{Action, Driver, Event, Phase, TrackerMessage, POLL_INTERVAL_MS};
use classic_trackers::memory::MemSnapshot;
use classic_trackers::stats::Stats;

const BASE: u64 = 0x40_0000;
const ENTRY: u64 = BASE + 0x18_f124;
const PTR1: u64 = 0x20_0000;
const PTR2: u64 = 0x30_0000;
const BLK: u64 = PTR2 + 0xd58;
const LIST_PTRS: [u64; 4] = [0x50_0000, 0x51_0000, 0x52_0000, 0x53_0000];
const LIST_OBJS: [u64; 4] = [0x60_0000, 0x61_0000, 0x62_0000, 0x63_0000];
const LIST_LENS: [usize; 4] = [0x158, 0x218, 0xf8, 0x1e8];
const LIST_COUNTS: [usize; 4] = [15, 23, 11, 21];
const HEAD_POS: [usize; 4] = [560, 600, 640, 680];
const PTR_POS: [usize; 4] = [576, 616, 656, 696];
const MONKEY_POS: usize = 720;

/// All counter values of one synthetic layout, in layout order.
struct Layout {
    scalars: [f64; 14],
    heads: [f64; 4],
    monkey: f64,
    lists: [Vec<f64>; 4],
}

impl Layout {
    fn zeroed() -> Layout {
        Layout {
            scalars: [0.0; 14],
            heads: [0.0; 4],
            monkey: 0.0,
            lists: [
                vec![0.0; LIST_COUNTS[0]],
                vec![0.0; LIST_COUNTS[1]],
                vec![0.0; LIST_COUNTS[2]],
                vec![0.0; LIST_COUNTS[3]],
            ],
        }
    }
}

fn put_f64(buf: &mut [u8], pos: usize, v: f64) {
    buf[pos..pos + 8].copy_from_slice(&v.to_bits().to_le_bytes());
}

fn put_u32(buf: &mut [u8], pos: usize, v: u32) {
    buf[pos..pos + 4].copy_from_slice(&v.to_le_bytes());
}

fn primary_block(layout: &Layout) -> Vec<u8> {
    let mut primary = vec![0u8; 0x2d8];
    for (i, v) in layout.scalars.iter().enumerate() {
        put_f64(&mut primary, i * 40, *v);
    }
    for k in 0..4 {
        put_f64(&mut primary, HEAD_POS[k], layout.heads[k]);
        put_u32(&mut primary, PTR_POS[k], LIST_PTRS[k] as u32);
    }
    put_f64(&mut primary, MONKEY_POS, layout.monkey);
    primary
}

/// Builds a snapshot holding the full fixed layout for `layout`.
fn build_snapshot(layout: &Layout) -> MemSnapshot {
    let mut m = MemSnapshot::new();
    assert!(m.add_region(ENTRY, (PTR1 as u32).to_le_bytes().to_vec()));
    assert!(m.add_region(PTR1 + 4, (PTR2 as u32).to_le_bytes().to_vec()));
    assert!(m.add_region(BLK, primary_block(layout)));
    for k in 0..4 {
        assert!(m.add_region(LIST_PTRS[k], (LIST_OBJS[k] as u32).to_le_bytes().to_vec()));
        let mut sec = vec![0u8; LIST_LENS[k]];
        for (j, v) in layout.lists[k].iter().enumerate() {
            put_f64(&mut sec, j * 24, *v);
        }
        assert!(m.add_region(LIST_OBJS[k] + 0x20, sec));
    }
    m
}

fn bits(v: f64) -> u64 {
    v.to_bits()
}

#[test]
fn all_zero_layout_decodes_to_all_zero_record() {
    let mem = build_snapshot(&Layout::zeroed());
    let stats = Stats::from_memory(&mem, BASE).expect("decode should succeed");
    assert_eq!(stats, Stats::default());
    assert_eq!(stats.crates_opened, bits(0.0));
    assert_eq!(stats.level_deaths.level_16, bits(0.0));
    assert_eq!(stats.enemy_kills.monkey, bits(0.0));
}

#[test]
fn every_counter_lands_in_its_own_field() {
    let mut layout = Layout::zeroed();
    let mut next: f64 = 1.0;
    for i in 0..14 {
        layout.scalars[i] = next;
        next += 1.0;
    }
    for k in 0..4 {
        layout.heads[k] = next;
        next += 1.0;
        for j in 0..LIST_COUNTS[k] {
            layout.lists[k][j] = next;
            next += 1.0;
        }
    }
    layout.monkey = next;
    let mem = build_snapshot(&layout);
    let stats = Stats::from_memory(&mem, BASE).expect("decode should succeed");
    assert_eq!(stats.crates_opened, bits(1.0));
    assert_eq!(stats.chests_opened, bits(2.0));
    assert_eq!(stats.idols_grabbed, bits(3.0));
    assert_eq!(stats.idols_converted, bits(4.0));
    assert_eq!(stats.damsels_grabbed, bits(5.0));
    assert_eq!(stats.kisses_bought, bits(6.0));
    assert_eq!(stats.damsels_bought, bits(7.0));
    assert_eq!(stats.damsels_saved, bits(8.0));
    assert_eq!(stats.damsels_killed, bits(9.0));
    assert_eq!(stats.items_bought, bits(10.0));
    assert_eq!(stats.items_stolen, bits(11.0));
    assert_eq!(stats.dice_games_played, bits(12.0));
    assert_eq!(stats.dice_games_won, bits(13.0));
    assert_eq!(stats.dice_games_lost, bits(14.0));
    assert_eq!(stats.level_deaths.level_1, bits(15.0));
    assert_eq!(stats.level_deaths.level_2, bits(16.0));
    assert_eq!(stats.level_deaths.level_3, bits(17.0));
    assert_eq!(stats.level_deaths.level_4, bits(18.0));
    assert_eq!(stats.level_deaths.level_5, bits(19.0));
    assert_eq!(stats.level_deaths.level_6, bits(20.0));
    assert_eq!(stats.level_deaths.level_7, bits(21.0));
    assert_eq!(stats.level_deaths.level_8, bits(22.0));
    assert_eq!(stats.level_deaths.level_9, bits(23.0));
    assert_eq!(stats.level_deaths.level_10, bits(24.0));
    assert_eq!(stats.level_deaths.level_11, bits(25.0));
    assert_eq!(stats.level_deaths.level_12, bits(26.0));
    assert_eq!(stats.level_deaths.level_13, bits(27.0));
    assert_eq!(stats.level_deaths.level_14, bits(28.0));
    assert_eq!(stats.level_deaths.level_15, bits(29.0));
    assert_eq!(stats.level_deaths.level_16, bits(30.0));
    assert_eq!(stats.enemy_deaths.bat, bits(31.0));
    assert_eq!(stats.enemy_deaths.snake, bits(32.0));
    assert_eq!(stats.enemy_deaths.spider, bits(33.0));
    assert_eq!(stats.enemy_deaths.giant_spider, bits(34.0));
    assert_eq!(stats.enemy_deaths.caveman, bits(35.0));
    assert_eq!(stats.enemy_deaths.skeleton, bits(36.0));
    assert_eq!(stats.enemy_deaths.zombie, bits(37.0));
    assert_eq!(stats.enemy_deaths.vampire, bits(38.0));
    assert_eq!(stats.enemy_deaths.frog, bits(39.0));
    assert_eq!(stats.enemy_deaths.fire_frog, bits(40.0));
    assert_eq!(stats.enemy_deaths.mantrap, bits(41.0));
    assert_eq!(stats.enemy_deaths.piranha, bits(42.0));
    assert_eq!(stats.enemy_deaths.megamouth, bits(43.0));
    assert_eq!(stats.enemy_deaths.yeti, bits(44.0));
    assert_eq!(stats.enemy_deaths.yeti_king, bits(45.0));
    assert_eq!(stats.enemy_deaths.alien, bits(46.0));
    assert_eq!(stats.enemy_deaths.ufo, bits(47.0));
    assert_eq!(stats.enemy_deaths.alien_boss, bits(48.0));
    assert_eq!(stats.enemy_deaths.hawkman, bits(49.0));
    assert_eq!(stats.enemy_deaths.shopkeeper, bits(50.0));
    assert_eq!(stats.enemy_deaths.tomb_lord, bits(51.0));
    assert_eq!(stats.enemy_deaths.magma_man, bits(52.0));
    assert_eq!(stats.enemy_deaths.olmec, bits(53.0));
    assert_eq!(stats.enemy_deaths.ghost_enemy, bits(54.0));
    assert_eq!(stats.misc_deaths.rock, bits(55.0));
    assert_eq!(stats.misc_deaths.explosion, bits(56.0));
    assert_eq!(stats.misc_deaths.crushed, bits(57.0));
    assert_eq!(stats.misc_deaths.long_fall, bits(58.0));
    assert_eq!(stats.misc_deaths.spikes, bits(59.0));
    assert_eq!(stats.misc_deaths.boulder, bits(60.0));
    assert_eq!(stats.misc_deaths.arrow_trap, bits(61.0));
    assert_eq!(stats.misc_deaths.spear_trap, bits(62.0));
    assert_eq!(stats.misc_deaths.smash_trap, bits(63.0));
    assert_eq!(stats.misc_deaths.ceiling_trap, bits(64.0));
    assert_eq!(stats.misc_deaths.pit, bits(65.0));
    assert_eq!(stats.misc_deaths.lava, bits(66.0));
    assert_eq!(stats.enemy_kills.bat, bits(67.0));
    assert_eq!(stats.enemy_kills.snake, bits(68.0));
    assert_eq!(stats.enemy_kills.spider, bits(69.0));
    assert_eq!(stats.enemy_kills.giant_spider, bits(70.0));
    assert_eq!(stats.enemy_kills.caveman, bits(71.0));
    assert_eq!(stats.enemy_kills.skeleton, bits(72.0));
    assert_eq!(stats.enemy_kills.zombie, bits(73.0));
    assert_eq!(stats.enemy_kills.vampire, bits(74.0));
    assert_eq!(stats.enemy_kills.frog, bits(75.0));
    assert_eq!(stats.enemy_kills.fire_frog, bits(76.0));
    assert_eq!(stats.enemy_kills.mantrap, bits(77.0));
    assert_eq!(stats.enemy_kills.piranha, bits(78.0));
    assert_eq!(stats.enemy_kills.megamouth, bits(79.0));
    assert_eq!(stats.enemy_kills.yeti, bits(80.0));
    assert_eq!(stats.enemy_kills.yeti_king, bits(81.0));
    assert_eq!(stats.enemy_kills.alien, bits(82.0));
    assert_eq!(stats.enemy_kills.ufo, bits(83.0));
    assert_eq!(stats.enemy_kills.alien_boss, bits(84.0));
    assert_eq!(stats.enemy_kills.hawkman, bits(85.0));
    assert_eq!(stats.enemy_kills.shopkeeper, bits(86.0));
    assert_eq!(stats.enemy_kills.tomb_lord, bits(87.0));
    assert_eq!(stats.enemy_kills.olmec, bits(88.0));
    assert_eq!(stats.enemy_kills.monkey, bits(89.0));
}

#[test]
fn monkey_kills_comes_from_the_primary_block_tail() {
    let mut layout = Layout::zeroed();
    layout.monkey = 42.0;
    for j in 0..LIST_COUNTS[3] {
        layout.lists[3][j] = 7.0;
    }
    let mem = build_snapshot(&layout);
    let stats = Stats::from_memory(&mem, BASE).expect("decode should succeed");
    assert_eq!(stats.enemy_kills.monkey, bits(42.0));
    assert_eq!(stats.enemy_kills.snake, bits(7.0));
    assert_eq!(stats.enemy_kills.olmec, bits(7.0));
}

#[test]
fn decoding_twice_from_unchanged_image_yields_equal_records() {
    let mut layout = Layout::zeroed();
    layout.scalars[0] = 12.0;
    layout.heads[1] = 3.0;
    layout.lists[2][5] = 9.0;
    layout.monkey = 1.0;
    let mem = build_snapshot(&layout);
    let first = Stats::from_memory(&mem, BASE).expect("decode should succeed");
    let second = Stats::from_memory(&mem, BASE).expect("decode should succeed");
    assert_eq!(first, second);
}

#[test]
fn unreadable_entry_pointer_fails_the_decode() {
    let mut m = MemSnapshot::new();
    // Everything but the entry pointer is present.
    assert!(m.add_region(PTR1 + 4, (PTR2 as u32).to_le_bytes().to_vec()));
    assert!(m.add_region(BLK, primary_block(&Layout::zeroed())));
    assert_eq!(Stats::from_memory(&m, BASE), Err(DecodeError));
}

#[test]
fn unreadable_secondary_list_fails_the_whole_decode() {
    // Build the full layout except the third category's list object: the
    // decode must fail as a whole, not return a partly filled record.
    let layout = Layout::zeroed();
    let mut m = MemSnapshot::new();
    assert!(m.add_region(ENTRY, (PTR1 as u32).to_le_bytes().to_vec()));
    assert!(m.add_region(PTR1 + 4, (PTR2 as u32).to_le_bytes().to_vec()));
    assert!(m.add_region(BLK, primary_block(&layout)));
    for k in 0..4 {
        assert!(m.add_region(LIST_PTRS[k], (LIST_OBJS[k] as u32).to_le_bytes().to_vec()));
        if k == 2 {
            continue;
        }
        let sec = vec![0u8; LIST_LENS[k]];
        assert!(m.add_region(LIST_OBJS[k] + 0x20, sec));
    }
    assert_eq!(Stats::from_memory(&m, BASE), Err(DecodeError));
}

#[test]
fn short_primary_block_fails_the_decode() {
    let layout = Layout::zeroed();
    let mut m = MemSnapshot::new();
    assert!(m.add_region(ENTRY, (PTR1 as u32).to_le_bytes().to_vec()));
    assert!(m.add_region(PTR1 + 4, (PTR2 as u32).to_le_bytes().to_vec()));
    let mut primary = primary_block(&layout);
    primary.truncate(700);
    assert!(m.add_region(BLK, primary));
    assert_eq!(Stats::from_memory(&m, BASE), Err(DecodeError));
}

#[test]
fn update_from_memory_keeps_the_record_intact_on_failure() {
    let mut layout = Layout::zeroed();
    layout.scalars[2] = 5.0;
    let mem = build_snapshot(&layout);
    let mut stats = Stats::from_memory(&mem, BASE).expect("decode should succeed");
    let before = stats;
    let empty = MemSnapshot::new();
    assert_eq!(stats.update_from_memory(&empty, BASE), Err(DecodeError));
    assert_eq!(stats, before);

    layout.scalars[2] = 6.0;
    let changed = build_snapshot(&layout);
    assert_eq!(stats.update_from_memory(&changed, BASE), Ok(()));
    assert_eq!(stats.idols_grabbed, bits(6.0));
}

#[test]
fn counter_change_between_polls_publishes_exactly_one_more_record() {
    // Process present and connected; the crates-opened counter's backing
    // memory changes from 0.0 to 3.0 between two polls, all else unchanged.
    let before = build_snapshot(&Layout::zeroed());
    let mut changed_layout = Layout::zeroed();
    changed_layout.scalars[0] = 3.0;
    let after = build_snapshot(&changed_layout);

    let mut d = Driver::new();
    d.step(Event::Poll);
    d.step(Event::FindResult { found: true });
    d.step(Event::ResolveResult { base: Some(BASE), now_ms: 0 });
    assert_eq!(d.phase, Phase::Connected);

    // First poll: stale enough that the all-zero record is published.
    d.step(Event::Poll);
    d.step(Event::LivenessResult { alive: true });
    let first = Stats::from_memory(&before, BASE).expect("decode should succeed");
    let acts = d.step(Event::DecodeResult { stats: Some(first), now_ms: 2000 });
    assert_eq!(acts[0], Action::Send { message: TrackerMessage::Payload { stats: first } });

    // Second poll: the changed memory decodes to a record differing in one
    // counter, so exactly one more publish occurs.
    d.step(Event::Poll);
    d.step(Event::LivenessResult { alive: true });
    let second = Stats::from_memory(&after, BASE).expect("decode should succeed");
    let acts = d.step(Event::DecodeResult { stats: Some(second), now_ms: 2100 });
    assert_eq!(acts[0], Action::Send { message: TrackerMessage::Payload { stats: second } });
    assert_eq!(second.crates_opened, bits(3.0));
    let mut second_with_old_counter = second;
    second_with_old_counter.crates_opened = first.crates_opened;
    assert_eq!(second_with_old_counter, first);

    // Third poll, memory unchanged and within the staleness window: no
    // further publish.
    d.step(Event::Poll);
    d.step(Event::LivenessResult { alive: true });
    let third = Stats::from_memory(&after, BASE).expect("decode should succeed");
    let acts = d.step(Event::DecodeResult { stats: Some(third), now_ms: 2200 });
    assert_eq!(acts, vec![Action::Wait { ms: POLL_INTERVAL_MS }]);
}
