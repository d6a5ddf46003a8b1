//! Properties of the routines over whole runs: what they may write, and
//! what their state keeps.
use vstd::prelude::*;
use crate::bytes;
use crate::game::{
    ActionView, HEAD_BONE, local_player_address, read4, reply_i32, glow_manager_address,
    max_players_address, GameView, ReplyView, Stage, aim_visit, eligible, glow_write, is_aim_fire_stage,
    is_aim_scan_stage, is_bhop_stage, is_wallhax_stage, reply_key, reply_player, reply_u32,
    start_aimbot, start_bhop, start_wallhax, step, view_angles_address, force_jump_address,
    wh_visit, FLAGS_ON_GROUND, FORCE_JUMP_VALUE,
};
use crate::player::{self, Entity};

verus! {

/// The actions a routine asks for when its pending actions are answered
/// with `rs`, one reply per action.
pub open spec fn run(g: GameView, rs: Seq<ReplyView>) -> Seq<ActionView>
    decreases rs.len(),
{
    if rs.len() == 0 {
        Seq::empty()
    } else {
        let (h, a) = step(g, rs[0]);
        seq![a] + run(h, rs.drop_first())
    }
}

/// If `inv` holds of `g` and every step from a state satisfying `inv`
/// keeps `inv` and asks for an action satisfying `ok`, then every action
/// of a run from `g` satisfies `ok`.
pub proof fn lemma_run_all(
    g: GameView,
    rs: Seq<ReplyView>,
    inv: spec_fn(GameView) -> bool,
    ok: spec_fn(ActionView) -> bool,
)
    requires
        inv(g),
        forall|h: GameView, r: ReplyView|
            #![trigger step(h, r)]
            inv(h) ==> inv(step(h, r).0) && ok(step(h, r).1),
    ensures
        run(g, rs).len() == rs.len(),
        forall|i: int| 0 <= i < rs.len() ==> ok(#[trigger] run(g, rs)[i]),
    decreases rs.len(),
{
    if rs.len() > 0 {
        let (h, a) = step(g, rs[0]);
        lemma_run_all(h, rs.drop_first(), inv, ok);
        assert forall|i: int| 0 <= i < rs.len() implies ok(#[trigger] run(g, rs)[i]) by {
            if i > 0 {
                assert(run(g, rs)[i] == run(h, rs.drop_first())[i - 1]);
            }
        }
    }
}

/// A routine reports `Done` exactly when it returns to the idle stage.
pub proof fn law_done_iff_idle(g: GameView, r: ReplyView)
    ensures
        (step(g, r).1 is Done) <==> step(g, r).0.stage == Stage::Idle,
{
}

/// No step changes where the client module is loaded or the offsets; only
/// the attach routine changes the client state pointer.
pub proof fn law_step_keeps_setup(g: GameView, r: ReplyView)
    ensures
        step(g, r).0.game_module == g.game_module,
        step(g, r).0.offsets == g.offsets,
        g.stage != Stage::Attach ==> step(g, r).0.client_state == g.client_state,
{
}

/// Once idle, a game stays idle: resuming it asks for nothing and changes
/// nothing but the stage.
pub proof fn law_idle_is_stable(g: GameView, r: ReplyView)
    requires
        g.stage == Stage::Idle,
    ensures
        step(g, r) == (g, ActionView::Done),
{
}

pub open spec fn jump_write(g: GameView) -> ActionView {
    ActionView::Write { addr: force_jump_address(g), bytes: bytes::u32_bytes(FORCE_JUMP_VALUE) }
}

/// The bunny-hop routine writes nothing but the force-jump value to the
/// force-jump global, however its reads are answered.
pub proof fn law_bhop_only_forces_jumps(g: GameView, rs: Seq<ReplyView>)
    ensures
        !(start_bhop(g).1 is Write),
        forall|i: int|
            0 <= i < rs.len() && (#[trigger] run(start_bhop(g).0, rs)[i]) is Write ==> run(
                start_bhop(g).0,
                rs,
            )[i] == jump_write(g),
{
    let inv = |h: GameView|
        (is_bhop_stage(h.stage) || h.stage == Stage::Idle) && h.game_module == g.game_module
            && h.offsets == g.offsets;
    let ok = |a: ActionView| a is Write ==> a == jump_write(g);
    lemma_run_all(start_bhop(g).0, rs, inv, ok);
}

/// The bunny-hop routine forces a jump exactly when the space bar is down,
/// there is a local player, and it stands on the ground.
pub proof fn law_bhop_jump_condition(g: GameView, r: ReplyView)
    requires
        g.stage == Stage::BhopKey,
    ensures
        (step(g, r).1 is Write) <==> (reply_key(r) && g.local_entity != 0 && g.local_player.flags
            == FLAGS_ON_GROUND),
        (step(g, r).1 is Write) ==> step(g, r).1 == jump_write(g),
{
}

/// Whether `a` is one of the six writes of a glow entry.
pub open spec fn is_glow_write(a: ActionView) -> bool {
    exists|base: u32, index: i32, k: u32, enemy: bool|
        k < 6 && a == #[trigger] glow_write(base, index, k, enemy)
}

/// The glow routine writes nothing but glow entries, however its reads are
/// answered.
pub proof fn law_wallhax_only_writes_glow(g: GameView, rs: Seq<ReplyView>)
    ensures
        !(start_wallhax(g).1 is Write),
        forall|i: int|
            0 <= i < rs.len() && (#[trigger] run(start_wallhax(g).0, rs)[i]) is Write
                ==> is_glow_write(run(start_wallhax(g).0, rs)[i]),
{
    let inv = |h: GameView|
        (is_wallhax_stage(h.stage) || h.stage == Stage::Idle) && (h.stage == Stage::WhGlow
            ==> h.step < 6);
    let ok = |a: ActionView| a is Write ==> is_glow_write(a);
    assert forall|h: GameView, r: ReplyView| #![trigger step(h, r)] inv(h) implies inv(step(h, r).0) && ok(
        step(h, r).1,
    ) by {
        if h.stage == Stage::WhSlotPlayer {
            let p = reply_player(r, h.offsets.player, h.current.player);
            assert(step(h, r).1 == glow_write(
                h.glow_base,
                p.glow_index,
                0,
                p.team_num != h.local_player.team_num,
            ));
        } else if h.stage == Stage::WhGlow && h.step < 5 {
            assert(step(h, r).1 == glow_write(
                h.glow_base,
                h.current.player.glow_index,
                (h.step + 1) as u32,
                h.current.player.team_num != h.local_player.team_num,
            ));
        }
    }
    lemma_run_all(start_wallhax(g).0, rs, inv, ok);
}

/// The glow entry of a visited player: once slot `g.index` has given a
/// non-null pointer and the player record has been read, the next six
/// actions write the six fields of the player's glow object, red for an
/// enemy and blue for a team mate, and the seventh reply moves on to the
/// next slot.
pub proof fn law_wallhax_glows_each_player(g: GameView, rs: Seq<ReplyView>)
    requires
        g.stage == Stage::WhSlot,
        rs.len() == 8,
        reply_u32(rs[0], 0) != 0,
    ensures
        ({
            let ptr = reply_u32(rs[0], 0);
            let p = reply_player(rs[1], g.offsets.player, player::PlayerStruct::spec_default());
            let enemy = p.team_num != g.local_player.team_num;
            let acts = run(g, rs);
            &&& acts[0] == ActionView::Read { addr: ptr, len: g.offsets.player.size }
            &&& forall|k: int|
                0 <= k < 6 ==> #[trigger] acts[k + 1] == glow_write(
                    g.glow_base,
                    p.glow_index,
                    k as u32,
                    enemy,
                )
            &&& acts[7] == wh_visit(g, g.index + 1).1
        }),
{
    reveal_with_fuel(run, 9);
    let s1 = step(g, rs[0]).0;
    let s2 = step(s1, rs[1]).0;
    let s3 = step(s2, rs[2]).0;
    let s4 = step(s3, rs[3]).0;
    let s5 = step(s4, rs[4]).0;
    let s6 = step(s5, rs[5]).0;
    let s7 = step(s6, rs[6]).0;
    assert(rs.drop_first().drop_first().drop_first().drop_first().drop_first().drop_first().drop_first()
        =~= seq![rs[7]]);
    assert(run(g, rs) =~= seq![
        step(g, rs[0]).1,
        step(s1, rs[1]).1,
        step(s2, rs[2]).1,
        step(s3, rs[3]).1,
        step(s4, rs[4]).1,
        step(s5, rs[5]).1,
        step(s6, rs[6]).1,
        step(s7, rs[7]).1,
    ]);
    assert(s7.index == g.index && s7.limit == g.limit && s7.game_module == g.game_module
        && s7.offsets == g.offsets);
}

/// Whether `a` writes some view angles to the view-angle global of `g`.
pub open spec fn is_aim_write(g: GameView, a: ActionView) -> bool {
    exists|v: player::Vec3Bits|
        a == ActionView::Write {
            addr: view_angles_address(g),
            bytes: #[trigger] player::vec3_bytes(v),
        }
}

/// The aim routine writes nothing but view angles to the view-angle
/// global, however its reads are answered.
pub proof fn law_aimbot_only_writes_view_angles(g: GameView, rs: Seq<ReplyView>)
    ensures
        !(start_aimbot(g).1 is Write),
        forall|i: int|
            0 <= i < rs.len() && (#[trigger] run(start_aimbot(g).0, rs)[i]) is Write
                ==> is_aim_write(g, run(start_aimbot(g).0, rs)[i]),
{
    let inv = |h: GameView|
        (is_aim_scan_stage(h.stage) || is_aim_fire_stage(h.stage) || h.stage == Stage::Idle)
            && h.client_state == g.client_state && h.offsets == g.offsets;
    let ok = |a: ActionView| a is Write ==> is_aim_write(g, a);
    assert forall|h: GameView, r: ReplyView| #![trigger step(h, r)] inv(h) implies inv(step(h, r).0) && ok(
        step(h, r).1,
    ) by {
        if h.stage == Stage::AimCompute {
            if let ReplyView::Angles(v) = r {
                assert(step(h, r).1 == ActionView::Write {
                    addr: view_angles_address(g),
                    bytes: player::vec3_bytes(v),
                });
            }
        }
    }
    lemma_run_all(start_aimbot(g).0, rs, inv, ok);
}

/// Every candidate of the target scan is eligible: another player, of the
/// other team, valid, and without spawn immunity. The scan keeps this, and
/// does not change the local player it compares against.
pub proof fn law_scan_keeps_candidates_eligible(g: GameView, r: ReplyView)
    requires
        is_aim_scan_stage(g.stage),
        forall|i: int|
            0 <= i < g.candidates.len() ==> eligible(
                #[trigger] g.candidates[i],
                g.local_entity,
                g.local_player.team_num,
            ),
    ensures
        step(g, r).0.local_entity == g.local_entity,
        step(g, r).0.local_player == g.local_player,
        forall|i: int|
            0 <= i < step(g, r).0.candidates.len() ==> eligible(
                #[trigger] step(g, r).0.candidates[i],
                g.local_entity,
                g.local_player.team_num,
            ),
{
}

/// The aim routine starts its scan with no candidate and no target.
pub proof fn law_aimbot_starts_empty(g: GameView)
    ensures
        start_aimbot(g).0.candidates.len() == 0,
        start_aimbot(g).0.target == Entity::spec_empty(),
        is_aim_scan_stage(start_aimbot(g).0.stage),
{
}

/// The aim target is one of the candidates, or none at all; so, when the
/// candidates are eligible, the target is an eligible enemy or none.
pub proof fn law_target_is_a_candidate(g: GameView, r: ReplyView)
    requires
        g.stage == Stage::AimPick,
    ensures
        step(g, r).0.target == Entity::spec_empty() || g.candidates.contains(step(g, r).0.target),
        (forall|i: int|
            0 <= i < g.candidates.len() ==> eligible(
                #[trigger] g.candidates[i],
                g.local_entity,
                g.local_player.team_num,
            )) ==> (step(g, r).0.target == Entity::spec_empty() || eligible(
            step(g, r).0.target,
            g.local_entity,
            g.local_player.team_num,
        )),
{
    let t = step(g, r).0.target;
    if let ReplyView::Picked(Some(k)) = r {
        if k < g.candidates.len() {
            assert(g.candidates[k as int] == t);
        }
    }
}

/// The scan ends with the candidates it found still eligible: at the end
/// of the entity list, the routine asks to pick among them (or, with none,
/// goes on without a target) and keeps them unchanged.
pub proof fn law_scan_end_keeps_candidates(g: GameView, i: int)
    requires
        i >= g.limit,
    ensures
        aim_visit(g, i).0.candidates == g.candidates,
        aim_visit(g, i).0.local_entity == g.local_entity,
        aim_visit(g, i).0.local_player == g.local_player,
        g.candidates.len() > 0 ==> aim_visit(g, i).0.stage == Stage::AimPick,
        g.candidates.len() == 0 ==> aim_visit(g, i).0.target == Entity::spec_empty(),
{
}

/// The scan visits the entity list slots in order: after slot `i`, the
/// next read is of slot `i + 1`, until `limit` slots have been visited.
pub proof fn law_scan_visits_next_slot(g: GameView, i: int)
    requires
        0 <= i < g.limit,
    ensures
        aim_visit(g, i).1 == (ActionView::Read {
            addr: player::spec_slot_address(g.game_module, g.offsets, i as u32),
            len: 4,
        }),
        wh_visit(g, i).1 == (ActionView::Read {
            addr: player::spec_slot_address(g.game_module, g.offsets, i as u32),
            len: 4,
        }),
        (wh_visit(g, g.limit as int).1 is Done),
{
}

/// The glow routine waits for a local player: while the local player
/// pointer reads null, it reads it again.
pub proof fn law_wallhax_waits_for_local_player(g: GameView, r: ReplyView)
    requires
        g.stage == Stage::WhLocalPtr,
        reply_u32(r, g.local_entity) == 0,
    ensures
        step(g, r) == (GameView { local_entity: 0, ..g }, ActionView::Read {
            addr: local_player_address(g),
            len: 4,
        }),
{
}

/// The aim routine turns the view only while the left button is down and
/// there is a target: only then does it go on to read the target's head.
pub proof fn law_aim_needs_button_and_target(g: GameView, r: ReplyView)
    requires
        g.stage == Stage::AimKey,
    ensures
        (step(g, r).1 is Done) <==> !(reply_key(r) && g.target.entity is Some),
        !(step(g, r).1 is Done) ==> step(g, r).1 == (ActionView::Read {
            addr: player::spec_bone_address(g.target.player.bone_matrix, HEAD_BONE, 0),
            len: 4,
        }),
{
}

// ---------------------------------------------------------------------------
// Running a routine against the target's memory

/// The memory the routine reads: each address holds a byte, or cannot be
/// read (`None`). The routine's own writes are taken not to change what it
/// reads.
pub type Memory = spec_fn(u32) -> Option<u8>;

/// The `len` bytes at `addr`, when all of them can be read.
pub open spec fn mem_read(m: Memory, addr: u32, len: u32) -> Option<Seq<u8>> {
    if forall|i: int| 0 <= i < len ==> (#[trigger] m(bytes::wrap32(addr + i))) is Some {
        Some(Seq::new(len as nat, |i: int| m(bytes::wrap32(addr + i))->0))
    } else {
        None
    }
}

/// The reply memory `m` gives to action `a`: the bytes a read asks for, or
/// `Failed` when one of them cannot be read; `Written` for a write.
pub open spec fn mem_reply(m: Memory, a: ActionView) -> ReplyView {
    match a {
        ActionView::Read { addr, len } => match mem_read(m, addr, len) {
            Some(b) => ReplyView::Data(b),
            None => ReplyView::Failed,
        },
        ActionView::Write { .. } => ReplyView::Written,
        _ => ReplyView::Failed,
    }
}

/// Answers `n` actions from memory `m`, starting with the pending action
/// `a` of `g`: the state reached and the actions asked for.
pub open spec fn run_on(g: GameView, a: ActionView, m: Memory, n: nat) -> (
    GameView,
    Seq<ActionView>,
)
    decreases n,
{
    if n == 0 {
        (g, Seq::empty())
    } else {
        let (h, b) = step(g, mem_reply(m, a));
        let (k, rest) = run_on(h, b, m, (n - 1) as nat);
        (k, seq![b] + rest)
    }
}

/// Whether the local player pointer of `h` cannot be read from `m`.
pub open spec fn ptr_unreadable(m: Memory, h: GameView) -> bool {
    mem_read(m, local_player_address(h), 4) is None
}

/// The local player pointer a read from `m` gives in state `h` (the old one
/// when the read fails).
pub open spec fn next_local_entity(m: Memory, h: GameView) -> u32 {
    reply_u32(mem_reply(m, read4(local_player_address(h))), h.local_entity)
}

/// Whether reading the player record at `p` from `m` leaves the local
/// player as it was: the record cannot be read, or the layout does not fit.
pub open spec fn record_kept(m: Memory, h: GameView, p: u32) -> bool {
    !h.offsets.player.wf() || mem_read(m, p, h.offsets.player.size) is None
}

/// `x1` and `x2` are equal, or are still the values the two runs started
/// from.
pub open spec fn same_or_start<T>(x1: T, x2: T, b1: T, b2: T) -> bool {
    x1 == x2 || (x1 == b1 && x2 == b2)
}

/// Two glow runs on memory `m` in lock step, started from `b1` and `b2`: at
/// the same stage, equal in what the rest of the run reads, and each field
/// either equal or not yet written since the start.
pub open spec fn glow_in_step(
    m: Memory,
    h1: GameView,
    h2: GameView,
    b1: GameView,
    b2: GameView,
) -> bool {
    let st = h1.stage;
    &&& st == h2.stage
    &&& is_wallhax_stage(st) || st == Stage::Idle
    &&& h1.game_module == h2.game_module
    &&& h1.client_state == h2.client_state
    &&& h1.offsets == h2.offsets
    &&& st == Stage::WhLocalPtr ==> (ptr_unreadable(m, h1) ==> h1.local_entity == h2.local_entity)
        && (record_kept(m, h1, next_local_entity(m, h1)) ==> h1.local_player == h2.local_player)
    &&& st == Stage::WhLocalPlayer ==> h1.local_entity == h2.local_entity && (record_kept(
        m,
        h1,
        h1.local_entity,
    ) ==> h1.local_player == h2.local_player)
    &&& (st != Stage::WhLocalPtr && st != Stage::WhLocalPlayer) ==> h1.local_player
        == h2.local_player
    &&& (st == Stage::WhMaxPlayers || st == Stage::WhSlot || st == Stage::WhSlotPlayer || st
        == Stage::WhGlow) ==> h1.glow_base == h2.glow_base
    &&& (st == Stage::WhSlot || st == Stage::WhSlotPlayer || st == Stage::WhGlow) ==> h1.index
        == h2.index && h1.limit == h2.limit
    &&& (st == Stage::WhSlotPlayer || st == Stage::WhGlow) ==> h1.current == h2.current
    &&& st == Stage::WhGlow ==> h1.step == h2.step
    &&& same_or_start(h1.local_entity, h2.local_entity, b1.local_entity, b2.local_entity)
    &&& same_or_start(h1.local_player, h2.local_player, b1.local_player, b2.local_player)
    &&& same_or_start(h1.max_players, h2.max_players, b1.max_players, b2.max_players)
    &&& same_or_start(h1.index, h2.index, b1.index, b2.index)
    &&& same_or_start(h1.limit, h2.limit, b1.limit, b2.limit)
    &&& same_or_start(h1.glow_base, h2.glow_base, b1.glow_base, b2.glow_base)
    &&& same_or_start(h1.skip, h2.skip, b1.skip, b2.skip)
    &&& same_or_start(h1.step, h2.step, b1.step, b2.step)
    &&& same_or_start(h1.current, h2.current, b1.current, b2.current)
    &&& same_or_start(h1.candidates, h2.candidates, b1.candidates, b2.candidates)
    &&& same_or_start(h1.target, h2.target, b1.target, b2.target)
    &&& same_or_start(h1.head, h2.head, b1.head, b2.head)
}

/// The pending action of a glow run reads the local player's pointer, or
/// the record at the local player pointer.
pub open spec fn glow_pending(h: GameView, a: ActionView) -> bool {
    &&& h.stage == Stage::WhLocalPtr ==> a == read4(local_player_address(h))
    &&& h.stage == Stage::WhLocalPlayer ==> a == (ActionView::Read {
        addr: h.local_entity,
        len: h.offsets.player.size,
    })
}

#[verifier::rlimit(40)]
proof fn lemma_glow_step_in_step(
    m: Memory,
    h1: GameView,
    h2: GameView,
    b1: GameView,
    b2: GameView,
    a: ActionView,
)
    requires
        glow_in_step(m, h1, h2, b1, b2),
        glow_pending(h1, a),
    ensures
        step(h1, mem_reply(m, a)).1 == step(h2, mem_reply(m, a)).1,
        glow_in_step(m, step(h1, mem_reply(m, a)).0, step(h2, mem_reply(m, a)).0, b1, b2),
        glow_pending(step(h1, mem_reply(m, a)).0, step(h1, mem_reply(m, a)).1),
{
    let r = mem_reply(m, a);
    let k1 = step(h1, r).0;
    if h1.stage == Stage::WhLocalPtr {
        assert(local_player_address(h1) == local_player_address(h2));
        if k1.stage == Stage::WhLocalPtr {
            assert(local_player_address(k1) == local_player_address(h1));
            assert(next_local_entity(m, k1) == next_local_entity(m, h1));
        }
    }
}

proof fn lemma_glow_runs_in_step(
    m: Memory,
    h1: GameView,
    h2: GameView,
    a: ActionView,
    n: nat,
    b1: GameView,
    b2: GameView,
)
    requires
        glow_in_step(m, h1, h2, b1, b2),
        glow_pending(h1, a),
    ensures
        run_on(h1, a, m, n).1 == run_on(h2, a, m, n).1,
        glow_in_step(m, run_on(h1, a, m, n).0, run_on(h2, a, m, n).0, b1, b2),
    decreases n,
{
    if n > 0 {
        let r = mem_reply(m, a);
        lemma_glow_step_in_step(m, h1, h2, b1, b2, a);
        lemma_glow_runs_in_step(m, step(h1, r).0, step(h2, r).0, step(h1, r).1, (n - 1) as nat, b1, b2);
    }
}

/// What a glow run on `m` started in `s` keeps: the setup, the stage
/// family, the local player pointer when it cannot be read, the local
/// player record when the record read leaves it, and the pointer the run
/// reads the record at.
pub open spec fn glow_run_keeps(m: Memory, s: GameView, h: GameView) -> bool {
    &&& h.game_module == s.game_module
    &&& h.client_state == s.client_state
    &&& h.offsets == s.offsets
    &&& is_wallhax_stage(h.stage) || h.stage == Stage::Idle
    &&& ptr_unreadable(m, s) ==> h.local_entity == s.local_entity
    &&& record_kept(m, s, next_local_entity(m, s)) ==> h.local_player == s.local_player
    &&& h.stage == Stage::WhLocalPtr ==> next_local_entity(m, h) == next_local_entity(m, s)
    &&& h.stage == Stage::WhLocalPlayer ==> h.local_entity == next_local_entity(m, s)
}

proof fn lemma_glow_run_keeps(m: Memory, s: GameView, g: GameView, a: ActionView, n: nat)
    requires
        glow_run_keeps(m, s, g),
        glow_pending(g, a),
    ensures
        glow_run_keeps(m, s, run_on(g, a, m, n).0),
    decreases n,
{
    if n > 0 {
        let (h, b) = step(g, mem_reply(m, a));
        assert(local_player_address(g) == local_player_address(s));
        if h.stage == Stage::WhLocalPtr {
            assert(local_player_address(h) == local_player_address(s));
        }
        lemma_glow_step_in_step(m, g, g, g, g, a);
        lemma_glow_run_keeps(m, s, h, b, (n - 1) as nat);
    }
}

/// Running the glow routine a second time on unchanged memory does the
/// same as running it once: if a first run answered from memory `m` (where
/// reads may fail) has ended, a second run answered from `m` asks for the
/// same actions (so writes the same values at the same addresses) and ends
/// in the same state.
pub proof fn law_wallhax_twice_is_once(g: GameView, m: Memory, n: nat)
    requires
        run_on(start_wallhax(g).0, start_wallhax(g).1, m, n).0.stage == Stage::Idle,
    ensures
        ({
            let h = run_on(start_wallhax(g).0, start_wallhax(g).1, m, n).0;
            &&& start_wallhax(h).1 == start_wallhax(g).1
            &&& run_on(start_wallhax(h).0, start_wallhax(h).1, m, n) == run_on(
                start_wallhax(g).0,
                start_wallhax(g).1,
                m,
                n,
            )
        }),
{
    let (s1, a) = start_wallhax(g);
    lemma_glow_run_keeps(m, s1, s1, a, n);
    let h = run_on(s1, a, m, n).0;
    let s2 = start_wallhax(h).0;
    assert(local_player_address(s1) == local_player_address(s2));
    assert(glow_in_step(m, s1, s2, s1, s2));
    lemma_glow_runs_in_step(m, s1, s2, a, n, s1, s2);
    let e2 = run_on(s2, a, m, n).0;
    assert(e2 == h);
}

/// Whether two team numbers differ.
pub open spec fn other_team(a: i32, b: i32) -> bool {
    a != b
}

/// The glow object array's address a glow run in `h` reads from `m`.
pub open spec fn glow_base_read(m: Memory, h: GameView) -> u32 {
    reply_u32(mem_reply(m, read4(glow_manager_address(h))), 0)
}

/// The number of entity list slots a glow run in `h` reads from `m`.
pub open spec fn player_count(m: Memory, h: GameView) -> u32 {
    reply_i32(mem_reply(m, read4(max_players_address(h))), 0) as u32
}

/// The pointer slot `j` of the entity list holds in `m` (null when it
/// cannot be read).
pub open spec fn slot_pointer(m: Memory, h: GameView, j: u32) -> u32 {
    reply_u32(mem_reply(m, read4(player::spec_slot_address(h.game_module, h.offsets, j))), 0)
}

/// The player record at the pointer of slot `j` in `m` (zeroed when it
/// cannot be read).
pub open spec fn slot_player(m: Memory, h: GameView, j: u32) -> player::PlayerStruct {
    reply_player(
        mem_reply(m, ActionView::Read { addr: slot_pointer(m, h, j), len: h.offsets.player.size }),
        h.offsets.player,
        player::PlayerStruct::spec_default(),
    )
}

/// When slot `j` holds a player, `acts` holds the six writes of its glow
/// entry: in the array at `base`, red if its team differs from `team`,
/// blue otherwise.
#[verifier::opaque]
pub open spec fn slot_glowed(
    acts: Seq<ActionView>,
    m: Memory,
    h: GameView,
    base: u32,
    team: i32,
    j: u32,
) -> bool {
    slot_pointer(m, h, j) != 0 ==> forall|k: u32|
        k < 6 ==> acts.contains(
            #[trigger] glow_write(
                base,
                slot_player(m, h, j).glow_index,
                k,
                other_team(slot_player(m, h, j).team_num, team),
            ),
        )
}

proof fn lemma_contains_after(b: ActionView, rest: Seq<ActionView>, x: ActionView)
    requires
        rest.contains(x),
    ensures
        (seq![b] + rest).contains(x),
{
    let i = choose|i: int| 0 <= i < rest.len() && rest[i] == x;
    assert((seq![b] + rest)[i + 1] == x);
}

proof fn lemma_idle_run(g: GameView, a: ActionView, m: Memory, n: nat)
    requires
        g.stage == Stage::Idle,
    ensures
        run_on(g, a, m, n).0 == g,
    decreases n,
{
    if n > 0 {
        lemma_idle_run(step(g, mem_reply(m, a)).0, step(g, mem_reply(m, a)).1, m, (n - 1) as nat);
    }
}

/// The pending action of the glow routine's loop over the entity list.
pub open spec fn loop_pending(m: Memory, h: GameView, a: ActionView) -> bool {
    &&& h.index < h.limit
    &&& h.stage == Stage::WhSlot ==> a == read4(
        player::spec_slot_address(h.game_module, h.offsets, h.index),
    )
    &&& h.stage == Stage::WhSlotPlayer ==> a == (ActionView::Read {
        addr: slot_pointer(m, h, h.index),
        len: h.offsets.player.size,
    }) && h.current.player == player::PlayerStruct::spec_default()
    &&& h.stage == Stage::WhGlow ==> h.step < 6
}

/// What the rest of the glow loop from `h` leaves in `acts`: the glow
/// entries of the slots after the current one (from the current one when
/// its pointer is still to be read), and the remaining writes of the
/// current slot's entry.
pub open spec fn loop_done(m: Memory, h: GameView, acts: Seq<ActionView>) -> bool {
    &&& forall|j: u32|
        (if h.stage == Stage::WhSlot {
            h.index <= j
        } else {
            h.index < j
        }) && j < h.limit ==> #[trigger] slot_glowed(
            acts,
            m,
            h,
            h.glow_base,
            h.local_player.team_num,
            j,
        )
    &&& h.stage == Stage::WhSlotPlayer ==> forall|k: u32|
        k < 6 ==> acts.contains(
            #[trigger] glow_write(
                h.glow_base,
                slot_player(m, h, h.index).glow_index,
                k,
                other_team(slot_player(m, h, h.index).team_num, h.local_player.team_num),
            ),
        )
    &&& h.stage == Stage::WhGlow ==> forall|k: u32|
        h.step < k < 6 ==> acts.contains(
            #[trigger] glow_write(
                h.glow_base,
                h.current.player.glow_index,
                k,
                other_team(h.current.player.team_num, h.local_player.team_num),
            ),
        )
}

/// The slots after the current one, as the next state sees them.
proof fn lemma_later_slots(
    m: Memory,
    h: GameView,
    h2: GameView,
    b: ActionView,
    rest: Seq<ActionView>,
)
    requires
        h2.stage == Stage::Idle ==> h.index + 1 >= h.limit,
        h2.stage != Stage::Idle ==> loop_done(m, h2, rest),
        h2.stage != Stage::Idle ==> (h2.stage == Stage::WhSlot ==> h2.index == h.index + 1) && (
        h2.stage != Stage::WhSlot ==> h2.index == h.index),
        h2.game_module == h.game_module,
        h2.offsets == h.offsets,
        h2.client_state == h.client_state,
        h2.glow_base == h.glow_base,
        h2.limit == h.limit,
        h2.local_player == h.local_player,
    ensures
        forall|j: u32|
            h.index < j && j < h.limit ==> #[trigger] slot_glowed(
                seq![b] + rest,
                m,
                h,
                h.glow_base,
                h.local_player.team_num,
                j,
            ),
{
    reveal(slot_glowed);
    let acts = seq![b] + rest;
    assert forall|x: ActionView| rest.contains(x) implies acts.contains(x) by {
        lemma_contains_after(b, rest, x);
    }
    assert forall|j: u32| h.index < j && j < h.limit implies #[trigger] slot_glowed(
        acts,
        m,
        h,
        h.glow_base,
        h.local_player.team_num,
        j,
    ) by {
        if slot_pointer(m, h, j) != 0 {
            assert(slot_player(m, h2, j) == slot_player(m, h, j));
            assert(slot_pointer(m, h2, j) == slot_pointer(m, h, j));
            assert(slot_glowed(rest, m, h2, h2.glow_base, h2.local_player.team_num, j));
        }
    }
}

/// The slot whose pointer was just read, as the next state sees it.
proof fn lemma_current_slot(
    m: Memory,
    h: GameView,
    h2: GameView,
    b: ActionView,
    rest: Seq<ActionView>,
)
    requires
        slot_pointer(m, h, h.index) != 0 ==> {
            &&& h2.stage == Stage::WhSlotPlayer
            &&& h2.index == h.index
            &&& h2.game_module == h.game_module
            &&& h2.offsets == h.offsets
            &&& h2.client_state == h.client_state
            &&& h2.glow_base == h.glow_base
            &&& h2.local_player == h.local_player
            &&& loop_done(m, h2, rest)
        },
    ensures
        slot_glowed(seq![b] + rest, m, h, h.glow_base, h.local_player.team_num, h.index),
{
    reveal(slot_glowed);
    let acts = seq![b] + rest;
    let j = h.index;
    if slot_pointer(m, h, j) != 0 {
        assert(slot_player(m, h2, j) == slot_player(m, h, j));
        assert forall|k: u32| k < 6 implies acts.contains(
            #[trigger] glow_write(
                h.glow_base,
                slot_player(m, h, j).glow_index,
                k,
                other_team(slot_player(m, h, j).team_num, h.local_player.team_num),
            ),
        ) by {
            let x = glow_write(
                h2.glow_base,
                slot_player(m, h2, h2.index).glow_index,
                k,
                other_team(slot_player(m, h2, h2.index).team_num, h2.local_player.team_num),
            );
            assert(rest.contains(x));
            lemma_contains_after(b, rest, x);
        }
    }
}

proof fn lemma_combine_slot(m: Memory, h: GameView, a: ActionView, rest: Seq<ActionView>)
    requires
        h.stage == Stage::WhSlot,
        loop_pending(m, h, a),
        step(h, mem_reply(m, a)).0.stage == Stage::Idle ==> h.index + 1 >= h.limit,
        step(h, mem_reply(m, a)).0.stage != Stage::Idle ==> loop_done(
            m,
            step(h, mem_reply(m, a)).0,
            rest,
        ),
    ensures
        loop_done(m, h, seq![step(h, mem_reply(m, a)).1] + rest),
{
    let (h2, b) = step(h, mem_reply(m, a));
    let acts = seq![b] + rest;
    assert(reply_u32(mem_reply(m, a), 0) == slot_pointer(m, h, h.index));
    lemma_later_slots(m, h, h2, b, rest);
    lemma_current_slot(m, h, h2, b, rest);
}

proof fn lemma_combine_player(m: Memory, h: GameView, a: ActionView, rest: Seq<ActionView>)
    requires
        h.stage == Stage::WhSlotPlayer,
        loop_pending(m, h, a),
        loop_done(m, step(h, mem_reply(m, a)).0, rest),
    ensures
        loop_done(m, h, seq![step(h, mem_reply(m, a)).1] + rest),
{
    let (h2, b) = step(h, mem_reply(m, a));
    let acts = seq![b] + rest;
    lemma_later_slots(m, h, h2, b, rest);
    assert forall|x: ActionView| rest.contains(x) implies acts.contains(x) by {
        lemma_contains_after(b, rest, x);
    }
    assert(acts[0] == b);
    assert forall|k: u32| k < 6 implies acts.contains(
        #[trigger] glow_write(
            h.glow_base,
            slot_player(m, h, h.index).glow_index,
            k,
            other_team(slot_player(m, h, h.index).team_num, h.local_player.team_num),
        ),
    ) by {
        if k > 0 {
            assert(rest.contains(
                glow_write(
                    h2.glow_base,
                    h2.current.player.glow_index,
                    k,
                    other_team(h2.current.player.team_num, h2.local_player.team_num),
                ),
            ));
        }
    }
}

proof fn lemma_combine_glow(m: Memory, h: GameView, a: ActionView, rest: Seq<ActionView>)
    requires
        h.stage == Stage::WhGlow,
        loop_pending(m, h, a),
        step(h, mem_reply(m, a)).0.stage == Stage::Idle ==> h.index + 1 >= h.limit,
        step(h, mem_reply(m, a)).0.stage != Stage::Idle ==> loop_done(
            m,
            step(h, mem_reply(m, a)).0,
            rest,
        ),
    ensures
        loop_done(m, h, seq![step(h, mem_reply(m, a)).1] + rest),
{
    let (h2, b) = step(h, mem_reply(m, a));
    let acts = seq![b] + rest;
    lemma_later_slots(m, h, h2, b, rest);
    assert forall|x: ActionView| rest.contains(x) implies acts.contains(x) by {
        lemma_contains_after(b, rest, x);
    }
    assert(acts[0] == b);
    assert forall|k: u32| h.step < k < 6 implies acts.contains(
        #[trigger] glow_write(
            h.glow_base,
            h.current.player.glow_index,
            k,
            other_team(h.current.player.team_num, h.local_player.team_num),
        ),
    ) by {
        if k > h.step + 1 {
            assert(rest.contains(
                glow_write(
                    h2.glow_base,
                    h2.current.player.glow_index,
                    k,
                    other_team(h2.current.player.team_num, h2.local_player.team_num),
                ),
            ));
        }
    }
}

proof fn lemma_loop_glows(m: Memory, h: GameView, a: ActionView, n: nat)
    requires
        h.stage == Stage::WhSlot || h.stage == Stage::WhSlotPlayer || h.stage == Stage::WhGlow,
        loop_pending(m, h, a),
        run_on(h, a, m, n).0.stage == Stage::Idle,
    ensures
        run_on(h, a, m, n).0.local_player == h.local_player,
        loop_done(m, h, run_on(h, a, m, n).1),
    decreases n,
{
    let r = mem_reply(m, a);
    let (h2, b) = step(h, r);
    let (e, rest) = run_on(h2, b, m, (n - 1) as nat);
    assert(run_on(h, a, m, n).1 == seq![b] + rest);
    if h2.stage == Stage::Idle {
        lemma_idle_run(h2, b, m, (n - 1) as nat);
    } else {
        lemma_loop_glows(m, h2, b, (n - 1) as nat);
    }
    if h.stage == Stage::WhSlot {
        lemma_combine_slot(m, h, a, rest);
    } else if h.stage == Stage::WhSlotPlayer {
        lemma_combine_player(m, h, a, rest);
    } else {
        lemma_combine_glow(m, h, a, rest);
    }
}

/// The glow array address a glow run in `h`, before its loop, ends up
/// using: the one read already, or the one it will read.
pub open spec fn prefix_base(m: Memory, h: GameView) -> u32 {
    if h.stage == Stage::WhMaxPlayers {
        h.glow_base
    } else {
        glow_base_read(m, h)
    }
}

/// The pending action before the glow routine's loop.
pub open spec fn prefix_pending(h: GameView, a: ActionView) -> bool {
    &&& glow_pending(h, a)
    &&& h.stage == Stage::WhGlowBase ==> a == read4(glow_manager_address(h))
    &&& h.stage == Stage::WhMaxPlayers ==> a == read4(max_players_address(h))
}

proof fn lemma_prefix_glows(m: Memory, h: GameView, a: ActionView, n: nat)
    requires
        h.stage == Stage::WhLocalPtr || h.stage == Stage::WhLocalPlayer || h.stage
            == Stage::WhGlowBase || h.stage == Stage::WhMaxPlayers,
        prefix_pending(h, a),
        run_on(h, a, m, n).0.stage == Stage::Idle,
    ensures
        (h.stage == Stage::WhGlowBase || h.stage == Stage::WhMaxPlayers) ==> run_on(
            h,
            a,
            m,
            n,
        ).0.local_player == h.local_player,
        forall|j: u32|
            j < player_count(m, h) ==> #[trigger] slot_glowed(
                run_on(h, a, m, n).1,
                m,
                h,
                prefix_base(m, h),
                run_on(h, a, m, n).0.local_player.team_num,
                j,
            ),
    decreases n,
{
    reveal(slot_glowed);
    let r = mem_reply(m, a);
    let (h2, b) = step(h, r);
    let (e, rest) = run_on(h2, b, m, (n - 1) as nat);
    let acts = run_on(h, a, m, n).1;
    assert(acts == seq![b] + rest);
    assert forall|x: ActionView| rest.contains(x) implies acts.contains(x) by {
        lemma_contains_after(b, rest, x);
    }
    let base = prefix_base(m, h);
    if h.stage == Stage::WhMaxPlayers {
        if h2.stage == Stage::Idle {
            lemma_idle_run(h2, b, m, (n - 1) as nat);
        } else {
            lemma_loop_glows(m, h2, b, (n - 1) as nat);
            assert(loop_done(m, h2, rest));
            assert forall|j: u32| j < player_count(m, h) implies #[trigger] slot_glowed(
                acts,
                m,
                h,
                base,
                e.local_player.team_num,
                j,
            ) by {
                if slot_pointer(m, h, j) != 0 {
                    assert(slot_player(m, h2, j) == slot_player(m, h, j));
                    assert(slot_pointer(m, h2, j) == slot_pointer(m, h, j));
                    assert(slot_glowed(rest, m, h2, h2.glow_base, h2.local_player.team_num, j));
                }
            }
        }
    } else {
        if h.stage == Stage::WhLocalPtr && h2.stage == Stage::WhLocalPtr {
            assert(local_player_address(h2) == local_player_address(h));
        }
        lemma_prefix_glows(m, h2, b, (n - 1) as nat);
        assert(player_count(m, h2) == player_count(m, h));
        assert forall|j: u32| j < player_count(m, h) implies #[trigger] slot_glowed(
            acts,
            m,
            h,
            base,
            e.local_player.team_num,
            j,
        ) by {
            if slot_pointer(m, h, j) != 0 {
                assert(slot_player(m, h2, j) == slot_player(m, h, j));
                assert(slot_pointer(m, h2, j) == slot_pointer(m, h, j));
                assert(slot_glowed(
                    rest,
                    m,
                    h2,
                    prefix_base(m, h2),
                    e.local_player.team_num,
                    j,
                ));
            }
        }
    }
}

proof fn lemma_glowed_same_setup(
    acts: Seq<ActionView>,
    m: Memory,
    h1: GameView,
    h2: GameView,
    team: i32,
)
    requires
        h1.game_module == h2.game_module,
        h1.offsets == h2.offsets,
        h1.client_state == h2.client_state,
        forall|j: u32|
            j < player_count(m, h1) ==> #[trigger] slot_glowed(
                acts,
                m,
                h1,
                glow_base_read(m, h1),
                team,
                j,
            ),
    ensures
        forall|j: u32|
            j < player_count(m, h2) ==> #[trigger] slot_glowed(
                acts,
                m,
                h2,
                glow_base_read(m, h2),
                team,
                j,
            ),
{
    reveal(slot_glowed);
    assert(glow_base_read(m, h1) == glow_base_read(m, h2));
    assert(player_count(m, h1) == player_count(m, h2));
    assert forall|j: u32| j < player_count(m, h2) implies #[trigger] slot_glowed(
        acts,
        m,
        h2,
        glow_base_read(m, h2),
        team,
        j,
    ) by {
        assert(slot_pointer(m, h1, j) == slot_pointer(m, h2, j));
        assert(slot_player(m, h1, j) == slot_player(m, h2, j));
        assert(slot_glowed(acts, m, h1, glow_base_read(m, h1), team, j));
    }
}

/// A glow run that has ended, answered from memory `m` (where reads may
/// fail), has made every player glow: for every slot below the player
/// count it read whose pointer is non-null, its actions hold the six
/// writes of that player's glow entry, in the glow array it read, red if
/// the player's team differs from the local player's, blue otherwise.
pub proof fn law_wallhax_glows_every_player(g: GameView, m: Memory, n: nat)
    requires
        run_on(start_wallhax(g).0, start_wallhax(g).1, m, n).0.stage == Stage::Idle,
    ensures
        forall|j: u32|
            j < player_count(m, g) ==> #[trigger] slot_glowed(
                run_on(start_wallhax(g).0, start_wallhax(g).1, m, n).1,
                m,
                g,
                glow_base_read(m, g),
                run_on(start_wallhax(g).0, start_wallhax(g).1, m, n).0.local_player.team_num,
                j,
            ),
{
    let (s, a) = start_wallhax(g);
    lemma_prefix_glows(m, s, a, n);
    let r = run_on(s, a, m, n);
    assert(prefix_base(m, s) == glow_base_read(m, s));
    lemma_glowed_same_setup(r.1, m, s, g, r.0.local_player.team_num);
}

/// The target scan ends by asking for the candidate nearest to the local
/// player: when a step of the scan leads to picking, the request carries
/// the local player's own origin and the origins of the candidates, in
/// the order they were found, and there is at least one candidate.
pub proof fn law_scan_end_measures_from_local_origin(g: GameView, r: ReplyView)
    requires
        is_aim_scan_stage(g.stage),
        step(g, r).0.stage == Stage::AimPick,
    ensures
        ({
            let (h, a) = step(g, r);
            &&& h.local_player == g.local_player
            &&& h.candidates.len() > 0
            &&& a matches ActionView::PickNearest { local_origin, candidates } && local_origin
                == g.local_player.origin && candidates.len() == h.candidates.len() && forall|
                i: int,
            |
                0 <= i < candidates.len() ==> #[trigger] candidates[i]
                    == h.candidates[i].player.origin
        }),
{
}

/// One visited entity of the target scan: it is eligible when it is
/// another entity than the local player, of the other team, valid and
/// without spawn immunity. The "spotted enemy seen" flag is set exactly
/// when an eligible entity whose spotted byte is 1 is visited; an eligible
/// entity joins the candidates unless the flag was already set and it is
/// unspotted; nothing else joins them.
pub proof fn law_scan_visit(g: GameView, r: ReplyView)
    requires
        g.stage == Stage::AimDormant,
    ensures
        ({
            let h = step(g, r).0;
            let e = h.current;
            let elig = e.entity != Some(g.local_entity) && e.player.team_num
                != g.local_player.team_num && e.valid && e.player.gun_game_immunity == 0;
            &&& e.entity == g.current.entity
            &&& e.player == g.current.player
            &&& h.skip == (g.skip || (elig && e.player.spotted == 1))
            &&& h.candidates == if elig && (e.player.spotted != 0 || !g.skip) {
                g.candidates.push(e)
            } else {
                g.candidates
            }
        }),
{
}

} // verus!
