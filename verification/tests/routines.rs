use exthack::game::{Action, Game, Reply, F32_HALF, F32_TWO, VK_LBUTTON, VK_SPACE};
use exthack::player::{Offsets, PlayerLayout, Vec3Bits};

const MODULE: u32 = 0x1000_0000;
const ENGINE: u32 = 0x2000_0000;
const CLIENT_STATE: u32 = 0x3000_0000;

fn layout() -> PlayerLayout {
    PlayerLayout {
        size: 60,
        health: 0,
        team_num: 4,
        glow_index: 8,
        gun_game_immunity: 12,
        spotted: 13,
        flags: 16,
        bone_matrix: 20,
        origin: 24,
        view_offset: 36,
        aim_punch_angle: 48,
    }
}

fn offsets() -> Offsets {
    Offsets {
        entity_list: 0x100,
        local_player: 0x200,
        glow_object_manager: 0x300,
        client_state: 0x400,
        client_state_view_angles: 0x10,
        client_state_max_player: 0x20,
        force_jump: 0x500,
        dormant: 0xED,
        player: layout(),
    }
}

struct Rec {
    health: i32,
    team: i32,
    glow: i32,
    immunity: u8,
    spotted: u8,
    flags: i32,
    bones: u32,
    origin: [u32; 3],
}

fn record(r: &Rec) -> Vec<u8> {
    let mut b = vec![0u8; 60];
    b[0..4].copy_from_slice(&r.health.to_le_bytes());
    b[4..8].copy_from_slice(&r.team.to_le_bytes());
    b[8..12].copy_from_slice(&r.glow.to_le_bytes());
    b[12] = r.immunity;
    b[13] = r.spotted;
    b[16..20].copy_from_slice(&r.flags.to_le_bytes());
    b[20..24].copy_from_slice(&r.bones.to_le_bytes());
    for k in 0..3 {
        b[24 + 4 * k..28 + 4 * k].copy_from_slice(&r.origin[k].to_le_bytes());
    }
    // view offset (0, 0, 64.0) and punch (1.0, 0, 0)
    b[44..48].copy_from_slice(&64.0f32.to_bits().to_le_bytes());
    b[48..52].copy_from_slice(&1.0f32.to_bits().to_le_bytes());
    b
}

fn plain(health: i32, team: i32) -> Rec {
    Rec { health, team, glow: 0, immunity: 0, spotted: 0, flags: 0, bones: 0, origin: [0; 3] }
}

fn data32(v: u32) -> Reply {
    Reply::Data(v.to_le_bytes().to_vec())
}

fn attached() -> Game {
    let mut g = Game::new(MODULE, offsets());
    assert_eq!(g.attach(ENGINE), Action::Read { addr: ENGINE + 0x400, len: 4 });
    assert_eq!(g.resume(&data32(CLIENT_STATE)), Action::Done);
    assert_eq!(g.client_state, CLIENT_STATE);
    g
}

#[test]
fn attach_reads_client_state() {
    let g = attached();
    assert!(g.is_idle());
}

#[test]
fn attach_failed_read_keeps_null_client_state() {
    let mut g = Game::new(MODULE, offsets());
    g.attach(ENGINE);
    assert_eq!(g.resume(&Reply::Failed), Action::Done);
    assert_eq!(g.client_state, 0);
}

#[test]
fn bhop_jumps_on_ground_with_space() {
    let mut g = attached();
    assert_eq!(g.bhop(), Action::Read { addr: MODULE + 0x200, len: 4 });
    assert_eq!(g.resume(&data32(0x5000)), Action::Read { addr: 0x5000, len: 60 });
    let mut me = plain(100, 2);
    me.flags = 257;
    assert_eq!(g.resume(&Reply::Data(record(&me))), Action::KeyDown { vk: VK_SPACE });
    assert_eq!(
        g.resume(&Reply::Key(true)),
        Action::Write { addr: MODULE + 0x500, bytes: vec![6, 0, 0, 0] }
    );
    assert_eq!(g.resume(&Reply::Written), Action::Done);
    assert!(g.is_idle());
    assert_eq!(g.local_entity, 0x5000);
    assert_eq!(g.local_player.flags, 257);
}

#[test]
fn bhop_does_nothing_in_the_air() {
    let mut g = attached();
    g.bhop();
    g.resume(&data32(0x5000));
    let mut me = plain(100, 2);
    me.flags = 256;
    g.resume(&Reply::Data(record(&me)));
    assert_eq!(g.resume(&Reply::Key(true)), Action::Done);
}

#[test]
fn bhop_does_nothing_without_space() {
    let mut g = attached();
    g.bhop();
    g.resume(&data32(0x5000));
    let mut me = plain(100, 2);
    me.flags = 257;
    g.resume(&Reply::Data(record(&me)));
    assert_eq!(g.resume(&Reply::Key(false)), Action::Done);
}

#[test]
fn bhop_without_local_player_asks_key_then_stops() {
    let mut g = attached();
    g.bhop();
    assert_eq!(g.resume(&data32(0)), Action::KeyDown { vk: VK_SPACE });
    assert_eq!(g.resume(&Reply::Key(true)), Action::Done);
}

#[test]
fn bhop_short_read_is_a_failed_read() {
    let mut g = attached();
    g.local_entity = 0x7000;
    g.bhop();
    // two bytes instead of four: the pointer keeps its previous value
    assert_eq!(g.resume(&Reply::Data(vec![1, 2])), Action::Read { addr: 0x7000, len: 60 });
}

fn glow_writes(base: u32, index: u32, enemy: bool) -> Vec<Action> {
    let entry = base + 0x38 * index;
    let f = |v: u32| v.to_le_bytes().to_vec();
    vec![
        Action::Write { addr: entry + 0x4, bytes: f(if enemy { F32_TWO } else { 0 }) },
        Action::Write { addr: entry + 0x8, bytes: f(0) },
        Action::Write { addr: entry + 0xC, bytes: f(if enemy { 0 } else { F32_TWO }) },
        Action::Write { addr: entry + 0x10, bytes: f(F32_HALF) },
        Action::Write { addr: entry + 0x24, bytes: vec![1] },
        Action::Write { addr: entry + 0x25, bytes: vec![0] },
    ]
}

#[test]
fn wallhax_colors_enemies_red_and_mates_blue() {
    let mut g = attached();
    assert_eq!(g.wallhax(), Action::Read { addr: MODULE + 0x200, len: 4 });
    // no local player yet: asks again
    assert_eq!(g.resume(&data32(0)), Action::Read { addr: MODULE + 0x200, len: 4 });
    assert_eq!(g.resume(&data32(0x5000)), Action::Read { addr: 0x5000, len: 60 });
    assert_eq!(
        g.resume(&Reply::Data(record(&plain(100, 2)))),
        Action::Read { addr: MODULE + 0x300, len: 4 }
    );
    assert_eq!(g.resume(&data32(0x9000)), Action::Read { addr: CLIENT_STATE + 0x20, len: 4 });
    // three slots
    assert_eq!(g.resume(&data32(3)), Action::Read { addr: MODULE + 0x100, len: 4 });
    assert_eq!(g.max_players, Some(3));
    // slot 0 is empty
    assert_eq!(g.resume(&data32(0)), Action::Read { addr: MODULE + 0x110, len: 4 });
    // slot 1: an enemy with glow index 5
    assert_eq!(g.resume(&data32(0x6000)), Action::Read { addr: 0x6000, len: 60 });
    let mut enemy = plain(100, 3);
    enemy.glow = 5;
    let mut acts = vec![g.resume(&Reply::Data(record(&enemy)))];
    for _ in 0..5 {
        acts.push(g.resume(&Reply::Written));
    }
    assert_eq!(acts, glow_writes(0x9000, 5, true));
    assert_eq!(g.resume(&Reply::Written), Action::Read { addr: MODULE + 0x120, len: 4 });
    // slot 2: a team mate with glow index 1
    assert_eq!(g.resume(&data32(0x6100)), Action::Read { addr: 0x6100, len: 60 });
    let mut mate = plain(50, 2);
    mate.glow = 1;
    let mut acts = vec![g.resume(&Reply::Data(record(&mate)))];
    for _ in 0..5 {
        acts.push(g.resume(&Reply::Written));
    }
    assert_eq!(acts, glow_writes(0x9000, 1, false));
    assert_eq!(g.resume(&Reply::Written), Action::Done);
    assert!(g.is_idle());
}

#[test]
fn wallhax_glows_an_entity_whose_record_could_not_be_read() {
    let mut g = attached();
    g.wallhax();
    g.resume(&data32(0x5000));
    g.resume(&Reply::Data(record(&plain(100, 2))));
    g.resume(&data32(0x9000));
    g.resume(&data32(1));
    g.resume(&data32(0x6000));
    // zeroed record: team 0 differs from 2, glow index 0
    let mut acts = vec![g.resume(&Reply::Failed)];
    for _ in 0..5 {
        acts.push(g.resume(&Reply::Written));
    }
    assert_eq!(acts, glow_writes(0x9000, 0, true));
}

#[test]
fn wallhax_with_no_players_stops() {
    let mut g = attached();
    g.wallhax();
    g.resume(&data32(0x5000));
    g.resume(&Reply::Data(record(&plain(100, 2))));
    g.resume(&data32(0x9000));
    assert_eq!(g.resume(&data32(0)), Action::Done);
    assert_eq!(g.max_players, Some(0));
}

#[test]
fn wallhax_negative_glow_index_wraps() {
    let mut g = attached();
    g.wallhax();
    g.resume(&data32(0x5000));
    g.resume(&Reply::Data(record(&plain(100, 2))));
    g.resume(&data32(0x100));
    g.resume(&data32(1));
    g.resume(&data32(0x6000));
    let mut e = plain(100, 3);
    e.glow = -1;
    match g.resume(&Reply::Data(record(&e))) {
        Action::Write { addr, .. } => assert_eq!(addr, 0x100u32.wrapping_sub(0x38).wrapping_add(4)),
        other => panic!("unexpected {:?}", other),
    }
}

/// Runs the target scan of the aim routine over `slots` (pointer, record,
/// dormant flag), the local player being 0x5000 of team 2.
fn scan(g: &mut Game, slots: &[(u32, Rec, i32)]) -> Action {
    g.local_entity = 0x5000;
    g.local_player.team_num = 2;
    assert_eq!(g.aimbot(), Action::Read { addr: CLIENT_STATE + 0x20, len: 4 });
    let mut a = g.resume(&data32(slots.len() as u32));
    for (i, (ptr, rec, dormant)) in slots.iter().enumerate() {
        assert_eq!(a, Action::Read { addr: MODULE + 0x100 + 0x10 * i as u32, len: 4 });
        a = g.resume(&data32(*ptr));
        if *ptr == 0 {
            continue;
        }
        assert_eq!(a, Action::Read { addr: *ptr, len: 60 });
        a = g.resume(&Reply::Data(record(rec)));
        assert_eq!(a, Action::Read { addr: ptr + 0xED, len: 4 });
        a = g.resume(&Reply::Data(dormant.to_le_bytes().to_vec()));
    }
    a
}

fn at(x: u32) -> Rec {
    let mut r = plain(100, 3);
    r.origin = [x, 0, 0];
    r
}

#[test]
fn aimbot_offers_only_eligible_enemies() {
    let mut g = attached();
    let mut immune = at(11);
    immune.immunity = 1;
    let mut dead = at(12);
    dead.health = 0;
    let overhealed = {
        let mut r = at(13);
        r.health = 101;
        r
    };
    let a = scan(
        &mut g,
        &[
            (0x5000, at(10), 0),  // the local player itself
            (0x6000, immune, 0),  // spawn immunity
            (0x6100, dead, 0),    // dead
            (0x6200, overhealed, 0),
            (0x6300, at(14), 1),  // dormant
            (0x6400, plain(100, 2), 0), // team mate
            (0, plain(0, 0), 0),  // empty slot
            (0x6500, at(15), 0),  // eligible
            (0x6600, at(16), 0),  // eligible
        ],
    );
    assert_eq!(
        a,
        Action::PickNearest {
            local_origin: Vec3Bits { x: 0, y: 0, z: 0 },
            candidates: vec![Vec3Bits { x: 15, y: 0, z: 0 }, Vec3Bits { x: 16, y: 0, z: 0 }],
        }
    );
    assert_eq!(g.max_players, Some(9));
}

#[test]
fn aimbot_after_a_spotted_enemy_skips_unspotted_ones() {
    let mut g = attached();
    let mut spotted = at(21);
    spotted.spotted = 1;
    let a = scan(&mut g, &[(0x6000, at(20), 0), (0x6100, spotted, 0), (0x6200, at(22), 0)]);
    assert_eq!(
        a,
        Action::PickNearest {
            local_origin: Vec3Bits { x: 0, y: 0, z: 0 },
            candidates: vec![Vec3Bits { x: 20, y: 0, z: 0 }, Vec3Bits { x: 21, y: 0, z: 0 }],
        }
    );
}

#[test]
fn aimbot_aims_at_the_picked_head() {
    let mut g = attached();
    let mut target = at(30);
    target.bones = 0x8000;
    let a = scan(&mut g, &[(0x6000, at(29), 0), (0x6100, target, 0)]);
    assert!(matches!(a, Action::PickNearest { .. }));
    assert_eq!(g.resume(&Reply::Picked(Some(1))), Action::Read { addr: MODULE + 0x200, len: 4 });
    assert_eq!(g.resume(&data32(0x5000)), Action::Read { addr: 0x5000, len: 60 });
    let mut me = plain(100, 2);
    me.origin = [1, 2, 3];
    assert_eq!(g.resume(&Reply::Data(record(&me))), Action::KeyDown { vk: VK_LBUTTON });
    let head = 0x8000 + 0x30 * 8;
    assert_eq!(g.resume(&Reply::Key(true)), Action::Read { addr: head + 0x0C, len: 4 });
    assert_eq!(g.resume(&data32(7)), Action::Read { addr: head + 0x1C, len: 4 });
    assert_eq!(g.resume(&Reply::Failed), Action::Read { addr: head + 0x2C, len: 4 });
    assert_eq!(
        g.resume(&data32(9)),
        Action::ComputeAim {
            head: Vec3Bits { x: 7, y: 0, z: 9 },
            origin: Vec3Bits { x: 1, y: 2, z: 3 },
            view_offset: Vec3Bits { x: 0, y: 0, z: 64.0f32.to_bits() },
            punch: Vec3Bits { x: 1.0f32.to_bits(), y: 0, z: 0 },
        }
    );
    let angles = Vec3Bits { x: 0x11223344, y: 0x55667788, z: 0 };
    let mut bytes = 0x11223344u32.to_le_bytes().to_vec();
    bytes.extend_from_slice(&0x55667788u32.to_le_bytes());
    bytes.extend_from_slice(&[0, 0, 0, 0]);
    assert_eq!(
        g.resume(&Reply::Angles(angles)),
        Action::Write { addr: CLIENT_STATE + 0x10, bytes }
    );
    assert_eq!(g.resume(&Reply::Written), Action::Done);
}

#[test]
fn aimbot_without_button_does_not_aim() {
    let mut g = attached();
    scan(&mut g, &[(0x6000, at(29), 0)]);
    g.resume(&Reply::Picked(Some(0)));
    g.resume(&data32(0x5000));
    g.resume(&Reply::Data(record(&plain(100, 2))));
    assert_eq!(g.resume(&Reply::Key(false)), Action::Done);
}

#[test]
fn aimbot_without_candidates_skips_picking_and_does_not_aim() {
    let mut g = attached();
    let a = scan(&mut g, &[(0x6000, plain(100, 2), 0)]);
    assert_eq!(a, Action::Read { addr: MODULE + 0x200, len: 4 });
    g.resume(&data32(0x5000));
    assert_eq!(
        g.resume(&Reply::Data(record(&plain(100, 2)))),
        Action::KeyDown { vk: VK_LBUTTON }
    );
    assert_eq!(g.resume(&Reply::Key(true)), Action::Done);
}

#[test]
fn aimbot_out_of_range_pick_means_no_target() {
    let mut g = attached();
    scan(&mut g, &[(0x6000, at(29), 0)]);
    g.resume(&Reply::Picked(Some(5)));
    g.resume(&data32(0x5000));
    g.resume(&Reply::Data(record(&plain(100, 2))));
    assert_eq!(g.resume(&Reply::Key(true)), Action::Done);
}

#[test]
fn resume_when_idle_is_done() {
    let mut g = attached();
    assert_eq!(g.resume(&Reply::Written), Action::Done);
    assert!(g.is_idle());
}

/// Runs the glow routine against a fixed memory: the local player at
/// 0x5000 (team 2), glow objects at 0x9000, two slots holding an enemy and
/// a team mate. Returns every action asked for.
fn glow_run(g: &mut Game) -> Vec<Action> {
    let mut acts = vec![g.wallhax()];
    loop {
        let reply = match acts.last().unwrap() {
            Action::Read { addr, len: 4 } => data32(match *addr {
                a if a == MODULE + 0x200 => 0x5000,
                a if a == MODULE + 0x300 => 0x9000,
                a if a == CLIENT_STATE + 0x20 => 2,
                a if a == MODULE + 0x100 => 0x6000,
                a if a == MODULE + 0x110 => 0x6100,
                _ => 0,
            }),
            Action::Read { addr, .. } => {
                let mut r = plain(100, if *addr == 0x6000 { 3 } else { 2 });
                r.glow = (*addr / 0x100) as i32;
                Reply::Data(record(&r))
            }
            Action::Write { .. } => Reply::Written,
            Action::Done => break,
            other => panic!("unexpected {:?}", other),
        };
        acts.push(g.resume(&reply));
    }
    acts
}

#[test]
fn wallhax_twice_is_once() {
    let mut g = attached();
    let first = glow_run(&mut g);
    let index = g.index;
    let glow_base = g.glow_base;
    let local_player = g.local_player;
    let second = glow_run(&mut g);
    assert_eq!(first, second);
    assert_eq!(first.iter().filter(|a| matches!(a, Action::Write { .. })).count(), 12);
    assert_eq!((g.index, g.glow_base, g.local_player), (index, glow_base, local_player));
}

/// Runs the glow routine against a memory in which some reads fail: the
/// local player pointer cannot be read (the routine keeps 0x5000), three
/// slots of which the first holds an enemy, the second cannot be read and
/// the third points at a record that cannot be read.
fn glow_run_failing(g: &mut Game) -> Vec<Action> {
    let mut acts = vec![g.wallhax()];
    loop {
        let reply = match acts.last().unwrap() {
            Action::Read { addr, len: 4 } => match *addr {
                a if a == MODULE + 0x200 => Reply::Failed,
                a if a == MODULE + 0x110 => Reply::Failed,
                a if a == MODULE + 0x300 => data32(0x9000),
                a if a == CLIENT_STATE + 0x20 => data32(3),
                a if a == MODULE + 0x100 => data32(0x6000),
                a if a == MODULE + 0x120 => data32(0x6200),
                _ => data32(0),
            },
            Action::Read { addr, .. } => match *addr {
                0x5000 => Reply::Data(record(&plain(100, 2))),
                0x6000 => {
                    let mut r = plain(100, 3);
                    r.glow = 5;
                    Reply::Data(record(&r))
                }
                _ => Reply::Failed,
            },
            Action::Write { .. } => Reply::Written,
            Action::Done => break,
            other => panic!("unexpected {:?}", other),
        };
        acts.push(g.resume(&reply));
    }
    acts
}

#[test]
fn wallhax_twice_is_once_where_reads_fail() {
    let mut g = attached();
    g.local_entity = 0x5000;
    let first = glow_run_failing(&mut g);
    let state = (g.local_entity, g.local_player, g.glow_base, g.index, g.max_players);
    let second = glow_run_failing(&mut g);
    assert_eq!(first, second);
    assert_eq!(state, (g.local_entity, g.local_player, g.glow_base, g.index, g.max_players));
    assert_eq!(g.local_entity, 0x5000);
}

#[test]
fn wallhax_glows_every_listed_player() {
    let mut g = attached();
    g.local_entity = 0x5000;
    let acts = glow_run_failing(&mut g);
    let writes: Vec<Action> =
        acts.into_iter().filter(|a| matches!(a, Action::Write { .. })).collect();
    let mut expected = glow_writes(0x9000, 5, true);
    // the third slot's record could not be read: zeroed, team 0, glow index 0
    expected.extend(glow_writes(0x9000, 0, true));
    assert_eq!(writes, expected);
}
