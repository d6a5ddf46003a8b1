//! The tool's routines (attach, bunny hop, glow, aim) as a state machine.
//!
//! A routine is started with one of `attach`, `bhop`, `wallhax` or `aimbot`,
//! each of which returns the first `Action`. The caller performs the action
//! (a read or write of the target process's memory, a key-state query, or a
//! floating-point computation) and hands the outcome back to `resume` as a
//! `Reply`, which returns the next action, until `Action::Done`.
use vstd::prelude::*;
use crate::bytes;
use crate::player::{Entity, Offsets, PlayerLayout, PlayerStruct, Vec3Bits};
use crate::player;

verus! {

/// Virtual-key code of the left mouse button.
pub const VK_LBUTTON: i32 = 0x01;

/// Virtual-key code of the space bar.
pub const VK_SPACE: i32 = 0x20;

/// The player flags value that means "standing on the ground".
pub const FLAGS_ON_GROUND: i32 = 257;

/// The value written to the force-jump global to make the player jump.
pub const FORCE_JUMP_VALUE: u32 = 6;

/// The bone the aim routine targets (the head).
pub const HEAD_BONE: u32 = 8;

/// Bit pattern of the single-precision value `2.0`.
pub const F32_TWO: u32 = 0x4000_0000;

/// Bit pattern of the single-precision value `0.5`.
pub const F32_HALF: u32 = 0x3F00_0000;

/// Bit pattern of the single-precision value `0.0`.
pub const F32_ZERO: u32 = 0;

/// What the caller must do next.
#[derive(PartialEq, Debug)]
pub enum Action {
    /// Read `len` bytes of the target process's memory at `addr`;
    /// answer with `Reply::Data` (exactly `len` bytes) or `Reply::Failed`.
    Read { addr: u32, len: u32 },
    /// Write `bytes` to the target process's memory at `addr`; answer with
    /// `Reply::Written` (the outcome is not used).
    Write { addr: u32, bytes: Vec<u8> },
    /// Tell whether the key `vk` is down; answer with `Reply::Key`.
    KeyDown { vk: i32 },
    /// Choose the candidate nearest to `local_origin` (the floating-point
    /// distance rule of the aim routine); answer with `Reply::Picked`.
    PickNearest { local_origin: Vec3Bits, candidates: Vec<Vec3Bits> },
    /// Compute the view angles that aim from `origin + view_offset` at
    /// `head`, corrected by `punch`; answer with `Reply::Angles`.
    ComputeAim { head: Vec3Bits, origin: Vec3Bits, view_offset: Vec3Bits, punch: Vec3Bits },
    /// The routine is over.
    Done,
}

/// The outcome of an action.
#[derive(PartialEq, Debug)]
pub enum Reply {
    Data(Vec<u8>),
    Failed,
    Written,
    Key(bool),
    Picked(Option<usize>),
    Angles(Vec3Bits),
}

pub enum ActionView {
    Read { addr: u32, len: u32 },
    Write { addr: u32, bytes: Seq<u8> },
    KeyDown { vk: i32 },
    PickNearest { local_origin: Vec3Bits, candidates: Seq<Vec3Bits> },
    ComputeAim { head: Vec3Bits, origin: Vec3Bits, view_offset: Vec3Bits, punch: Vec3Bits },
    Done,
}

pub enum ReplyView {
    Data(Seq<u8>),
    Failed,
    Written,
    Key(bool),
    Picked(Option<usize>),
    Angles(Vec3Bits),
}

impl View for Action {
    type V = ActionView;

    open spec fn view(&self) -> ActionView {
        match self {
            Action::Read { addr, len } => ActionView::Read { addr: *addr, len: *len },
            Action::Write { addr, bytes } => ActionView::Write { addr: *addr, bytes: bytes@ },
            Action::KeyDown { vk } => ActionView::KeyDown { vk: *vk },
            Action::PickNearest { local_origin, candidates } => ActionView::PickNearest {
                local_origin: *local_origin,
                candidates: candidates@,
            },
            Action::ComputeAim { head, origin, view_offset, punch } => ActionView::ComputeAim {
                head: *head,
                origin: *origin,
                view_offset: *view_offset,
                punch: *punch,
            },
            Action::Done => ActionView::Done,
        }
    }
}

impl View for Reply {
    type V = ReplyView;

    open spec fn view(&self) -> ReplyView {
        match self {
            Reply::Data(b) => ReplyView::Data(b@),
            Reply::Failed => ReplyView::Failed,
            Reply::Written => ReplyView::Written,
            Reply::Key(k) => ReplyView::Key(*k),
            Reply::Picked(p) => ReplyView::Picked(*p),
            Reply::Angles(v) => ReplyView::Angles(*v),
        }
    }
}

/// Where a routine stands: which action is pending.
#[derive(Clone, Copy, PartialEq, Eq, Structural, Debug)]
pub enum Stage {
    Idle,
    Attach,
    BhopLocalPtr,
    BhopLocalPlayer,
    BhopKey,
    BhopJump,
    WhLocalPtr,
    WhLocalPlayer,
    WhGlowBase,
    WhMaxPlayers,
    WhSlot,
    WhSlotPlayer,
    WhGlow,
    AimMaxPlayers,
    AimSlot,
    AimSlotPlayer,
    AimDormant,
    AimPick,
    AimLocalPtr,
    AimLocalPlayer,
    AimKey,
    AimBone,
    AimCompute,
    AimWrite,
}

/// The tool's view of the game, and the state of the running routine.
pub struct Game {
    pub game_module: u32,
    pub client_state: u32,
    pub local_entity: u32,
    pub local_player: PlayerStruct,
    pub max_players: Option<i32>,
    pub offsets: Offsets,
    /// The state of the running routine (see `GameView`).
    pub stage: Stage,
    pub index: u32,
    pub limit: u32,
    pub glow_base: u32,
    pub skip: bool,
    pub step: u32,
    pub current: Entity,
    pub candidates: Vec<Entity>,
    pub target: Entity,
    pub head: Vec3Bits,
}

/// The abstract state of a `Game`.
pub struct GameView {
    pub game_module: u32,
    pub client_state: u32,
    pub local_entity: u32,
    pub local_player: PlayerStruct,
    pub max_players: Option<i32>,
    pub offsets: Offsets,
    /// The pending action's stage.
    pub stage: Stage,
    /// The entity list slot being visited.
    pub index: u32,
    /// The number of slots to visit.
    pub limit: u32,
    /// The address of the glow object array.
    pub glow_base: u32,
    /// Whether a spotted enemy has been seen during the target scan.
    pub skip: bool,
    /// Which of a glow entry's writes, or of a bone's components, is pending.
    pub step: u32,
    /// The entity being visited.
    pub current: Entity,
    /// The aim candidates found so far, in slot order.
    pub candidates: Seq<Entity>,
    /// The chosen aim target.
    pub target: Entity,
    /// The components of the target's head position read so far.
    pub head: Vec3Bits,
}

impl GameView {
    /// While an entity's record or dormant flag is being read, the entity
    /// being visited is present.
    pub open spec fn wf(self) -> bool {
        (self.stage == Stage::AimSlotPlayer || self.stage == Stage::AimDormant)
            ==> self.current.entity is Some
    }
}

impl View for Game {
    type V = GameView;

    open spec fn view(&self) -> GameView {
        GameView {
            game_module: self.game_module,
            client_state: self.client_state,
            local_entity: self.local_entity,
            local_player: self.local_player,
            max_players: self.max_players,
            offsets: self.offsets,
            stage: self.stage,
            index: self.index,
            limit: self.limit,
            glow_base: self.glow_base,
            skip: self.skip,
            step: self.step,
            current: self.current,
            candidates: self.candidates@,
            target: self.target,
            head: self.head,
        }
    }
}

// ---------------------------------------------------------------------------
// Reading replies

/// The bytes of a successful read of exactly `len` bytes.
pub open spec fn reply_bytes(r: ReplyView, len: u32) -> Option<Seq<u8>> {
    match r {
        ReplyView::Data(b) => if b.len() == len {
            Some(b)
        } else {
            None
        },
        _ => None,
    }
}

/// The `u32` a 4-byte read gave, or `dflt` (what the destination held)
/// when the read failed.
pub open spec fn reply_u32(r: ReplyView, dflt: u32) -> u32 {
    match reply_bytes(r, 4) {
        Some(b) => bytes::le_u32(b, 0),
        None => dflt,
    }
}

/// The `i32` a 4-byte read gave, or `dflt` when the read failed.
pub open spec fn reply_i32(r: ReplyView, dflt: i32) -> i32 {
    match reply_bytes(r, 4) {
        Some(b) => bytes::le_i32(b, 0),
        None => dflt,
    }
}

/// The player record a read gave, or `dflt` when the read failed
/// (or the layout does not fit in the record).
pub open spec fn reply_player(r: ReplyView, l: PlayerLayout, dflt: PlayerStruct) -> PlayerStruct {
    match reply_bytes(r, l.size) {
        Some(b) => if l.wf() {
            PlayerStruct::spec_decode(b, l)
        } else {
            dflt
        },
        None => dflt,
    }
}

/// Whether the key was reported down.
pub open spec fn reply_key(r: ReplyView) -> bool {
    r == ReplyView::Key(true)
}

fn get_u32(r: &Reply, dflt: u32) -> (v: u32)
    ensures
        v == reply_u32(r@, dflt),
{
    match r {
        Reply::Data(b) => if b.len() == 4 {
            bytes::read_u32_le(b, 0)
        } else {
            dflt
        },
        _ => dflt,
    }
}

fn get_i32(r: &Reply, dflt: i32) -> (v: i32)
    ensures
        v == reply_i32(r@, dflt),
{
    match r {
        Reply::Data(b) => if b.len() == 4 {
            bytes::read_i32_le(b, 0)
        } else {
            dflt
        },
        _ => dflt,
    }
}

/// Whether every field of `l` lies inside the record.
pub fn record_fits(l: &PlayerLayout) -> (ok: bool)
    ensures
        ok == l.wf(),
{
    let s = l.size as u64;
    l.health as u64 + 4 <= s && l.team_num as u64 + 4 <= s && l.glow_index as u64 + 4 <= s
        && l.gun_game_immunity as u64 + 1 <= s && l.spotted as u64 + 1 <= s && l.flags as u64 + 4
        <= s && l.bone_matrix as u64 + 4 <= s && l.origin as u64 + 12 <= s && l.view_offset as u64
        + 12 <= s && l.aim_punch_angle as u64 + 12 <= s
}

fn get_player(r: &Reply, l: &PlayerLayout, dflt: PlayerStruct) -> (p: PlayerStruct)
    ensures
        p == reply_player(r@, *l, dflt),
{
    match r {
        Reply::Data(b) => if b.len() == l.size as usize && record_fits(l) {
            PlayerStruct::decode(b, l)
        } else {
            dflt
        },
        _ => dflt,
    }
}

fn get_key(r: &Reply) -> (down: bool)
    ensures
        down == reply_key(r@),
{
    match r {
        Reply::Key(k) => *k,
        _ => false,
    }
}

// ---------------------------------------------------------------------------
// Addresses and written values

pub open spec fn local_player_address(g: GameView) -> u32 {
    bytes::wrap32(g.game_module + g.offsets.local_player)
}

pub open spec fn glow_manager_address(g: GameView) -> u32 {
    bytes::wrap32(g.game_module + g.offsets.glow_object_manager)
}

pub open spec fn max_players_address(g: GameView) -> u32 {
    bytes::wrap32(g.client_state + g.offsets.client_state_max_player)
}

pub open spec fn force_jump_address(g: GameView) -> u32 {
    bytes::wrap32(g.game_module + g.offsets.force_jump)
}

pub open spec fn view_angles_address(g: GameView) -> u32 {
    bytes::wrap32(g.client_state + g.offsets.client_state_view_angles)
}

pub open spec fn dormant_address(o: Offsets, entity: u32) -> u32 {
    bytes::wrap32(entity + o.dormant)
}

/// Offset, inside a glow object, of the field written at step `k`:
/// red, green, blue, alpha, render-when-occluded, render-when-unoccluded.
pub open spec fn glow_field(k: u32) -> u32 {
    if k == 0 {
        0x4
    } else if k == 1 {
        0x8
    } else if k == 2 {
        0xC
    } else if k == 3 {
        0x10
    } else if k == 4 {
        0x24
    } else {
        0x25
    }
}

/// Bytes written at step `k` of a glow entry: enemies glow red
/// (2, 0, 0, 0.5), team mates blue (0, 0, 2, 0.5); both are drawn when
/// occluded and not when unoccluded.
pub open spec fn glow_value(k: u32, enemy: bool) -> Seq<u8> {
    if k == 0 {
        bytes::u32_bytes(if enemy { F32_TWO } else { F32_ZERO })
    } else if k == 1 {
        bytes::u32_bytes(F32_ZERO)
    } else if k == 2 {
        bytes::u32_bytes(if enemy { F32_ZERO } else { F32_TWO })
    } else if k == 3 {
        bytes::u32_bytes(F32_HALF)
    } else if k == 4 {
        seq![1u8]
    } else {
        seq![0u8]
    }
}

/// Address of the field written at step `k` of glow object `index`.
pub open spec fn glow_address(base: u32, index: i32, k: u32) -> u32 {
    bytes::wrap32(base + 0x38 * index + glow_field(k))
}

pub open spec fn glow_write(base: u32, index: i32, k: u32, enemy: bool) -> ActionView {
    ActionView::Write { addr: glow_address(base, index, k), bytes: glow_value(k, enemy) }
}

pub open spec fn read4(addr: u32) -> ActionView {
    ActionView::Read { addr, len: 4 }
}

pub open spec fn origins(c: Seq<Entity>) -> Seq<Vec3Bits> {
    Seq::new(c.len(), |i: int| c[i].player.origin)
}

/// Sets component `k` of `v` to `x`.
pub open spec fn with_component(v: Vec3Bits, k: u32, x: u32) -> Vec3Bits {
    if k == 0 {
        Vec3Bits { x, ..v }
    } else if k == 1 {
        Vec3Bits { y: x, ..v }
    } else {
        Vec3Bits { z: x, ..v }
    }
}

/// The entity's address, or null when there is none.
pub open spec fn entity_pointer(e: Entity) -> u32 {
    match e.entity {
        Some(p) => p,
        None => 0,
    }
}

/// Whether `e` may be aimed at: another player, of the other team, valid,
/// and not protected by spawn immunity.
pub open spec fn eligible(e: Entity, local_entity: u32, local_team: i32) -> bool {
    &&& e.entity != Some(local_entity)
    &&& e.player.team_num != local_team
    &&& e.valid
    &&& e.player.gun_game_immunity == 0
}

// ---------------------------------------------------------------------------
// The transitions

/// Starting to read the client state pointer from the engine module.
pub open spec fn start_attach(g: GameView, engine: u32) -> (GameView, ActionView) {
    (GameView { stage: Stage::Attach, ..g }, read4(bytes::wrap32(engine + g.offsets.client_state)))
}

pub open spec fn start_bhop(g: GameView) -> (GameView, ActionView) {
    (GameView { stage: Stage::BhopLocalPtr, ..g }, read4(local_player_address(g)))
}

pub open spec fn start_wallhax(g: GameView) -> (GameView, ActionView) {
    (GameView { stage: Stage::WhLocalPtr, ..g }, read4(local_player_address(g)))
}

pub open spec fn start_aimbot(g: GameView) -> (GameView, ActionView) {
    (
        GameView {
            stage: Stage::AimMaxPlayers,
            skip: false,
            candidates: Seq::empty(),
            target: Entity::spec_empty(),
            ..g
        },
        read4(max_players_address(g)),
    )
}

pub open spec fn done(g: GameView) -> (GameView, ActionView) {
    (GameView { stage: Stage::Idle, ..g }, ActionView::Done)
}

pub open spec fn step_attach(g: GameView, r: ReplyView) -> (GameView, ActionView) {
    done(GameView { client_state: reply_u32(r, g.client_state), ..g })
}

/// After the local player pointer `le` is known: read the record if the
/// pointer is non-null, else go on to `next`.
pub open spec fn after_local_ptr(
    g: GameView,
    le: u32,
    read_stage: Stage,
    next: (GameView, ActionView),
) -> (GameView, ActionView) {
    if le != 0 {
        (
            GameView { local_entity: le, stage: read_stage, ..g },
            ActionView::Read { addr: le, len: g.offsets.player.size },
        )
    } else {
        next
    }
}

pub open spec fn step_bhop(g: GameView, r: ReplyView) -> (GameView, ActionView) {
    let key = ActionView::KeyDown { vk: VK_SPACE };
    match g.stage {
        Stage::BhopLocalPtr => {
            let le = reply_u32(r, g.local_entity);
            after_local_ptr(
                g,
                le,
                Stage::BhopLocalPlayer,
                (GameView { local_entity: le, stage: Stage::BhopKey, ..g }, key),
            )
        },
        Stage::BhopLocalPlayer => (
            GameView {
                local_player: reply_player(r, g.offsets.player, g.local_player),
                stage: Stage::BhopKey,
                ..g
            },
            key,
        ),
        Stage::BhopKey => {
            if reply_key(r) && g.local_entity != 0 && g.local_player.flags == FLAGS_ON_GROUND {
                (
                    GameView { stage: Stage::BhopJump, ..g },
                    ActionView::Write {
                        addr: force_jump_address(g),
                        bytes: bytes::u32_bytes(FORCE_JUMP_VALUE),
                    },
                )
            } else {
                done(g)
            }
        },
        _ => done(g),
    }
}

/// Visit slot `i` of the entity list during the glow routine, or finish.
pub open spec fn wh_visit(g: GameView, i: int) -> (GameView, ActionView) {
    if i < g.limit {
        (
            GameView { stage: Stage::WhSlot, index: i as u32, ..g },
            read4(player::spec_slot_address(g.game_module, g.offsets, i as u32)),
        )
    } else {
        done(g)
    }
}

pub open spec fn step_wallhax(g: GameView, r: ReplyView) -> (GameView, ActionView) {
    match g.stage {
        Stage::WhLocalPtr => {
            let le = reply_u32(r, g.local_entity);
            after_local_ptr(
                g,
                le,
                Stage::WhLocalPlayer,
                (GameView { local_entity: le, ..g }, read4(local_player_address(g))),
            )
        },
        Stage::WhLocalPlayer => (
            GameView {
                local_player: reply_player(r, g.offsets.player, g.local_player),
                stage: Stage::WhGlowBase,
                ..g
            },
            read4(glow_manager_address(g)),
        ),
        Stage::WhGlowBase => (
            GameView { glow_base: reply_u32(r, 0), stage: Stage::WhMaxPlayers, ..g },
            read4(max_players_address(g)),
        ),
        Stage::WhMaxPlayers => {
            let n = reply_i32(r, 0);
            wh_visit(GameView { max_players: Some(n), limit: n as u32, ..g }, 0)
        },
        Stage::WhSlot => {
            let ptr = reply_u32(r, 0);
            if ptr != 0 {
                (
                    GameView {
                        current: Entity { entity: Some(ptr), ..Entity::spec_empty() },
                        stage: Stage::WhSlotPlayer,
                        ..g
                    },
                    ActionView::Read { addr: ptr, len: g.offsets.player.size },
                )
            } else {
                wh_visit(g, g.index + 1)
            }
        },
        Stage::WhSlotPlayer => {
            let p = reply_player(r, g.offsets.player, g.current.player);
            let enemy = p.team_num != g.local_player.team_num;
            (
                GameView {
                    current: Entity { player: p, ..g.current },
                    step: 0,
                    stage: Stage::WhGlow,
                    ..g
                },
                glow_write(g.glow_base, p.glow_index, 0, enemy),
            )
        },
        Stage::WhGlow => {
            if g.step < 5 {
                (
                    GameView { step: (g.step + 1) as u32, ..g },
                    glow_write(
                        g.glow_base,
                        g.current.player.glow_index,
                        (g.step + 1) as u32,
                        g.current.player.team_num != g.local_player.team_num,
                    ),
                )
            } else {
                wh_visit(g, g.index + 1)
            }
        },
        _ => done(g),
    }
}

/// After the target scan: pick among the candidates, or go straight on
/// with no target when there is none.
pub open spec fn aim_end_scan(g: GameView) -> (GameView, ActionView) {
    if g.candidates.len() == 0 {
        (
            GameView { target: Entity::spec_empty(), stage: Stage::AimLocalPtr, ..g },
            read4(local_player_address(g)),
        )
    } else {
        (
            GameView { stage: Stage::AimPick, ..g },
            ActionView::PickNearest {
                local_origin: g.local_player.origin,
                candidates: origins(g.candidates),
            },
        )
    }
}

/// Visit slot `i` of the entity list during the target scan, or end it.
pub open spec fn aim_visit(g: GameView, i: int) -> (GameView, ActionView) {
    if i < g.limit {
        (
            GameView { stage: Stage::AimSlot, index: i as u32, ..g },
            read4(player::spec_slot_address(g.game_module, g.offsets, i as u32)),
        )
    } else {
        aim_end_scan(g)
    }
}

/// The target scan's decision on the visited entity `e`: whether it becomes
/// a candidate, and the new value of the "spotted enemy seen" flag. Once a
/// spotted enemy has been seen, unspotted ones are passed over.
pub open spec fn scan_decision(g: GameView, e: Entity) -> (bool, bool) {
    if eligible(e, g.local_entity, g.local_player.team_num) {
        let skip = g.skip || e.player.spotted == 1;
        (!(skip && e.player.spotted == 0), skip)
    } else {
        (false, g.skip)
    }
}

pub open spec fn step_aim_scan(g: GameView, r: ReplyView) -> (GameView, ActionView) {
    match g.stage {
        Stage::AimMaxPlayers => {
            let n = reply_i32(r, 0);
            aim_visit(GameView { max_players: Some(n), limit: n as u32, ..g }, 0)
        },
        Stage::AimSlot => {
            let ptr = reply_u32(r, 0);
            if ptr != 0 {
                (
                    GameView {
                        current: Entity { entity: Some(ptr), ..Entity::spec_empty() },
                        stage: Stage::AimSlotPlayer,
                        ..g
                    },
                    ActionView::Read { addr: ptr, len: g.offsets.player.size },
                )
            } else {
                aim_visit(g, g.index + 1)
            }
        },
        Stage::AimSlotPlayer => {
            let p = reply_player(r, g.offsets.player, g.current.player);
            (
                GameView { current: Entity { player: p, ..g.current }, stage: Stage::AimDormant, ..g },
                read4(dormant_address(g.offsets, entity_pointer(g.current))),
            )
        },
        Stage::AimDormant => {
            let e = Entity {
                valid: player::spec_is_valid(g.current.player.health, reply_i32(r, 1)),
                ..g.current
            };
            let (keep, skip) = scan_decision(g, e);
            let cands = if keep {
                g.candidates.push(e)
            } else {
                g.candidates
            };
            aim_visit(GameView { current: e, skip, candidates: cands, ..g }, g.index + 1)
        },
        _ => done(g),
    }
}

pub open spec fn picked_target(g: GameView, r: ReplyView) -> Entity {
    match r {
        ReplyView::Picked(Some(k)) => if k < g.candidates.len() {
            g.candidates[k as int]
        } else {
            Entity::spec_empty()
        },
        _ => Entity::spec_empty(),
    }
}

pub open spec fn step_aim_fire(g: GameView, r: ReplyView) -> (GameView, ActionView) {
    let key = ActionView::KeyDown { vk: VK_LBUTTON };
    match g.stage {
        Stage::AimPick => (
            GameView { target: picked_target(g, r), stage: Stage::AimLocalPtr, ..g },
            read4(local_player_address(g)),
        ),
        Stage::AimLocalPtr => {
            let le = reply_u32(r, g.local_entity);
            after_local_ptr(
                g,
                le,
                Stage::AimLocalPlayer,
                (GameView { local_entity: le, stage: Stage::AimKey, ..g }, key),
            )
        },
        Stage::AimLocalPlayer => (
            GameView {
                local_player: reply_player(r, g.offsets.player, g.local_player),
                stage: Stage::AimKey,
                ..g
            },
            key,
        ),
        Stage::AimKey => {
            if reply_key(r) && g.target.entity is Some {
                (
                    GameView {
                        head: Vec3Bits::spec_zero(),
                        step: 0,
                        stage: Stage::AimBone,
                        ..g
                    },
                    read4(player::spec_bone_address(g.target.player.bone_matrix, HEAD_BONE, 0)),
                )
            } else {
                done(g)
            }
        },
        Stage::AimBone => {
            let head = with_component(g.head, g.step, reply_u32(r, 0));
            if g.step < 2 {
                (
                    GameView { head, step: (g.step + 1) as u32, ..g },
                    read4(
                        player::spec_bone_address(
                            g.target.player.bone_matrix,
                            HEAD_BONE,
                            g.step + 1,
                        ),
                    ),
                )
            } else {
                (
                    GameView { head, stage: Stage::AimCompute, ..g },
                    ActionView::ComputeAim {
                        head,
                        origin: g.local_player.origin,
                        view_offset: g.local_player.view_offset,
                        punch: g.local_player.aim_punch_angle,
                    },
                )
            }
        },
        Stage::AimCompute => match r {
            ReplyView::Angles(v) => (
                GameView { stage: Stage::AimWrite, ..g },
                ActionView::Write { addr: view_angles_address(g), bytes: player::vec3_bytes(v) },
            ),
            _ => done(g),
        },
        _ => done(g),
    }
}

pub open spec fn is_bhop_stage(s: Stage) -> bool {
    s == Stage::BhopLocalPtr || s == Stage::BhopLocalPlayer || s == Stage::BhopKey || s
        == Stage::BhopJump
}

pub open spec fn is_wallhax_stage(s: Stage) -> bool {
    s == Stage::WhLocalPtr || s == Stage::WhLocalPlayer || s == Stage::WhGlowBase || s
        == Stage::WhMaxPlayers || s == Stage::WhSlot || s == Stage::WhSlotPlayer || s
        == Stage::WhGlow
}

pub open spec fn is_aim_scan_stage(s: Stage) -> bool {
    s == Stage::AimMaxPlayers || s == Stage::AimSlot || s == Stage::AimSlotPlayer || s
        == Stage::AimDormant
}

pub open spec fn is_aim_fire_stage(s: Stage) -> bool {
    s == Stage::AimPick || s == Stage::AimLocalPtr || s == Stage::AimLocalPlayer || s
        == Stage::AimKey || s == Stage::AimBone || s == Stage::AimCompute || s == Stage::AimWrite
}

/// One transition: the reply `r` to the pending action of `g`.
pub open spec fn step(g: GameView, r: ReplyView) -> (GameView, ActionView) {
    if g.stage == Stage::Attach {
        step_attach(g, r)
    } else if is_bhop_stage(g.stage) {
        step_bhop(g, r)
    } else if is_wallhax_stage(g.stage) {
        step_wallhax(g, r)
    } else if is_aim_scan_stage(g.stage) {
        step_aim_scan(g, r)
    } else if is_aim_fire_stage(g.stage) {
        step_aim_fire(g, r)
    } else {
        done(g)
    }
}

/// Every step keeps the game well formed.
pub proof fn lemma_step_keeps_wf(g: GameView, r: ReplyView)
    requires
        g.wf(),
    ensures
        step(g, r).0.wf(),
{
}

// ---------------------------------------------------------------------------
// The executable state machine

fn read4_action(addr: u32) -> (a: Action)
    ensures
        a@ == read4(addr),
{
    Action::Read { addr, len: 4 }
}

fn glow_offset(k: u32) -> (f: u32)
    ensures
        f == glow_field(k),
{
    if k == 0 {
        0x4
    } else if k == 1 {
        0x8
    } else if k == 2 {
        0xC
    } else if k == 3 {
        0x10
    } else if k == 4 {
        0x24
    } else {
        0x25
    }
}

/// The address of the field written at step `k` of glow object `index`.
pub fn glow_entry_address(base: u32, index: i32, k: u32) -> (a: u32)
    ensures
        a == glow_address(base, index, k),
{
    let f = glow_offset(k);
    let t: i64 = base as i64 + index as i64 * 0x38 + f as i64 + 0x100_0000_0000i64;
    let a = ((t as u64) % 0x1_0000_0000u64) as u32;
    proof {
        let x = base + 0x38 * index + f;
        assert(t == 0x100 * bytes::addr_space() + x);
        vstd::arithmetic::div_mod::lemma_mod_multiples_vanish(0x100, x, bytes::addr_space());
    }
    a
}

/// The bytes written at step `k` of a glow entry.
pub fn glow_bytes(k: u32, enemy: bool) -> (b: Vec<u8>)
    ensures
        b@ == glow_value(k, enemy),
{
    if k == 0 {
        bytes::u32_le_bytes(if enemy { F32_TWO } else { F32_ZERO })
    } else if k == 1 {
        bytes::u32_le_bytes(F32_ZERO)
    } else if k == 2 {
        bytes::u32_le_bytes(if enemy { F32_ZERO } else { F32_TWO })
    } else if k == 3 {
        bytes::u32_le_bytes(F32_HALF)
    } else if k == 4 {
        let b = vec![1u8];
        assert(b@ =~= seq![1u8]);
        b
    } else {
        let b = vec![0u8];
        assert(b@ =~= seq![0u8]);
        b
    }
}

fn glow_write_action(base: u32, index: i32, k: u32, enemy: bool) -> (a: Action)
    ensures
        a@ == glow_write(base, index, k, enemy),
{
    Action::Write { addr: glow_entry_address(base, index, k), bytes: glow_bytes(k, enemy) }
}

fn origins_of(c: &Vec<Entity>) -> (o: Vec<Vec3Bits>)
    ensures
        o@ == origins(c@),
{
    let mut o: Vec<Vec3Bits> = Vec::new();
    let n = c.len();
    for i in 0..n
        invariant
            n == c@.len(),
            o@ =~= origins(c@.subrange(0, i as int)),
    {
        o.push(c[i].player.origin);
        assert(origins(c@.subrange(0, i + 1)) =~= origins(c@.subrange(0, i as int)).push(
            c@[i as int].player.origin,
        ));
    }
    assert(c@.subrange(0, n as int) =~= c@);
    o
}

impl Game {
    /// A game whose client module is loaded at `game_module`, before any
    /// routine ran.
    pub fn new(game_module: u32, offsets: Offsets) -> (g: Game)
        ensures
            g.game_module == game_module,
            g.client_state == 0,
            g.local_entity == 0,
            g.local_player == PlayerStruct::spec_default(),
            g.max_players == None::<i32>,
            g.offsets == offsets,
            g@.stage == Stage::Idle,
            g@.game_module == game_module,
            g@.client_state == 0,
            g@.local_entity == 0,
            g@.local_player == PlayerStruct::spec_default(),
            g@.max_players == None::<i32>,
            g@.offsets == offsets,
            g@.wf(),
    {
        Game {
            game_module,
            client_state: 0,
            local_entity: 0,
            local_player: PlayerStruct::new(),
            max_players: None,
            offsets,
            stage: Stage::Idle,
            index: 0,
            limit: 0,
            glow_base: 0,
            skip: false,
            step: 0,
            current: Entity::default(),
            candidates: Vec::new(),
            target: Entity::default(),
            head: Vec3Bits::zero(),
        }
    }

    /// Whether no routine is running.
    pub fn is_idle(&self) -> (b: bool)
        ensures
            b == (self@.stage == Stage::Idle),
    {
        self.stage == Stage::Idle
    }

    fn local_ptr_read(&self) -> (a: Action)
        ensures
            a@ == read4(local_player_address(self@)),
    {
        read4_action(bytes::addr_add(self.game_module, self.offsets.local_player))
    }

    fn finish(&mut self) -> (a: Action)
        ensures
            (final(self)@, a@) == done(old(self)@),
    {
        self.stage = Stage::Idle;
        Action::Done
    }

    /// Starts reading the client state pointer, held in the engine module
    /// loaded at `engine`.
    pub fn attach(&mut self, engine: u32) -> (a: Action)
        ensures
            (final(self)@, a@) == start_attach(old(self)@, engine),
    {
        self.stage = Stage::Attach;
        read4_action(bytes::addr_add(engine, self.offsets.client_state))
    }

    /// Starts the bunny-hop routine: refresh the local player, then, if the
    /// space bar is down and the player stands on the ground, force a jump.
    pub fn bhop(&mut self) -> (a: Action)
        ensures
            (final(self)@, a@) == start_bhop(old(self)@),
    {
        self.stage = Stage::BhopLocalPtr;
        self.local_ptr_read()
    }

    /// Starts the glow routine: wait for a local player, then make every
    /// player glow, enemies red and team mates blue.
    pub fn wallhax(&mut self) -> (a: Action)
        ensures
            (final(self)@, a@) == start_wallhax(old(self)@),
    {
        self.stage = Stage::WhLocalPtr;
        self.local_ptr_read()
    }

    /// Starts the aim routine: find the nearest eligible enemy, refresh the
    /// local player, and while the left button is down turn the view to
    /// the target's head.
    pub fn aimbot(&mut self) -> (a: Action)
        ensures
            (final(self)@, a@) == start_aimbot(old(self)@),
    {
        self.stage = Stage::AimMaxPlayers;
        self.skip = false;
        self.candidates = Vec::new();
        self.target = Entity::default();
        read4_action(bytes::addr_add(self.client_state, self.offsets.client_state_max_player))
    }

    /// Hands the outcome of the pending action to the running routine and
    /// returns the next action.
    pub fn resume(&mut self, r: &Reply) -> (a: Action)
        requires
            old(self)@.wf(),
        ensures
            (final(self)@, a@) == step(old(self)@, r@),
            final(self)@.wf(),
    {
        proof {
            lemma_step_keeps_wf(self@, r@);
        }
        if self.stage == Stage::Attach {
            self.client_state = get_u32(r, self.client_state);
            self.finish()
        } else if self.stage == Stage::BhopLocalPtr || self.stage == Stage::BhopLocalPlayer
            || self.stage == Stage::BhopKey || self.stage == Stage::BhopJump {
            self.resume_bhop(r)
        } else if self.stage == Stage::WhLocalPtr || self.stage == Stage::WhLocalPlayer
            || self.stage == Stage::WhGlowBase || self.stage == Stage::WhMaxPlayers || self.stage
            == Stage::WhSlot || self.stage == Stage::WhSlotPlayer || self.stage == Stage::WhGlow {
            self.resume_wallhax(r)
        } else if self.stage == Stage::AimMaxPlayers || self.stage == Stage::AimSlot || self.stage
            == Stage::AimSlotPlayer || self.stage == Stage::AimDormant {
            self.resume_aim_scan(r)
        } else if self.stage == Stage::AimPick || self.stage == Stage::AimLocalPtr || self.stage
            == Stage::AimLocalPlayer || self.stage == Stage::AimKey || self.stage == Stage::AimBone
            || self.stage == Stage::AimCompute || self.stage == Stage::AimWrite {
            self.resume_aim_fire(r)
        } else {
            self.finish()
        }
    }

    fn resume_bhop(&mut self, r: &Reply) -> (a: Action)
        requires
            is_bhop_stage(old(self)@.stage),
        ensures
            (final(self)@, a@) == step_bhop(old(self)@, r@),
    {
        match self.stage {
            Stage::BhopLocalPtr => {
                let le = get_u32(r, self.local_entity);
                self.local_entity = le;
                if le != 0 {
                    self.stage = Stage::BhopLocalPlayer;
                    Action::Read { addr: le, len: self.offsets.player.size }
                } else {
                    self.stage = Stage::BhopKey;
                    Action::KeyDown { vk: VK_SPACE }
                }
            },
            Stage::BhopLocalPlayer => {
                self.local_player = get_player(r, &self.offsets.player, self.local_player);
                self.stage = Stage::BhopKey;
                Action::KeyDown { vk: VK_SPACE }
            },
            Stage::BhopKey => {
                if get_key(r) && self.local_entity != 0 && self.local_player.flags
                    == FLAGS_ON_GROUND {
                    self.stage = Stage::BhopJump;
                    Action::Write {
                        addr: bytes::addr_add(self.game_module, self.offsets.force_jump),
                        bytes: bytes::u32_le_bytes(FORCE_JUMP_VALUE),
                    }
                } else {
                    self.finish()
                }
            },
            _ => self.finish(),
        }
    }

    fn wh_visit(&mut self, i: u64) -> (a: Action)
        ensures
            (final(self)@, a@) == wh_visit(old(self)@, i as int),
    {
        if i < self.limit as u64 {
            self.stage = Stage::WhSlot;
            self.index = i as u32;
            read4_action(Entity::slot_address(self.game_module, &self.offsets, i as u32))
        } else {
            self.finish()
        }
    }

    fn resume_wallhax(&mut self, r: &Reply) -> (a: Action)
        requires
            is_wallhax_stage(old(self)@.stage),
        ensures
            (final(self)@, a@) == step_wallhax(old(self)@, r@),
    {
        match self.stage {
            Stage::WhLocalPtr => {
                let le = get_u32(r, self.local_entity);
                self.local_entity = le;
                if le != 0 {
                    self.stage = Stage::WhLocalPlayer;
                    Action::Read { addr: le, len: self.offsets.player.size }
                } else {
                    self.local_ptr_read()
                }
            },
            Stage::WhLocalPlayer => {
                self.local_player = get_player(r, &self.offsets.player, self.local_player);
                self.stage = Stage::WhGlowBase;
                read4_action(bytes::addr_add(self.game_module, self.offsets.glow_object_manager))
            },
            Stage::WhGlowBase => {
                self.glow_base = get_u32(r, 0);
                self.stage = Stage::WhMaxPlayers;
                read4_action(
                    bytes::addr_add(self.client_state, self.offsets.client_state_max_player),
                )
            },
            Stage::WhMaxPlayers => {
                let n = get_i32(r, 0);
                self.max_players = Some(n);
                self.limit = n as u32;
                self.wh_visit(0)
            },
            Stage::WhSlot => {
                let ptr = get_u32(r, 0);
                if ptr != 0 {
                    let mut e = Entity::default();
                    e.set_entity(ptr, None);
                    self.current = e;
                    self.stage = Stage::WhSlotPlayer;
                    Action::Read { addr: ptr, len: self.offsets.player.size }
                } else {
                    self.wh_visit(self.index as u64 + 1)
                }
            },
            Stage::WhSlotPlayer => {
                let p = get_player(r, &self.offsets.player, self.current.player);
                self.current.player = p;
                self.step = 0;
                self.stage = Stage::WhGlow;
                glow_write_action(
                    self.glow_base,
                    p.glow_index,
                    0,
                    p.team_num != self.local_player.team_num,
                )
            },
            Stage::WhGlow => {
                if self.step < 5 {
                    self.step = self.step + 1;
                    glow_write_action(
                        self.glow_base,
                        self.current.player.glow_index,
                        self.step,
                        self.current.player.team_num != self.local_player.team_num,
                    )
                } else {
                    self.wh_visit(self.index as u64 + 1)
                }
            },
            _ => self.finish(),
        }
    }

    fn aim_end_scan(&mut self) -> (a: Action)
        ensures
            (final(self)@, a@) == aim_end_scan(old(self)@),
    {
        if self.candidates.len() == 0 {
            self.target = Entity::default();
            self.stage = Stage::AimLocalPtr;
            self.local_ptr_read()
        } else {
            self.stage = Stage::AimPick;
            Action::PickNearest {
                local_origin: self.local_player.origin,
                candidates: origins_of(&self.candidates),
            }
        }
    }

    fn aim_visit(&mut self, i: u64) -> (a: Action)
        ensures
            (final(self)@, a@) == aim_visit(old(self)@, i as int),
    {
        if i < self.limit as u64 {
            self.stage = Stage::AimSlot;
            self.index = i as u32;
            read4_action(Entity::slot_address(self.game_module, &self.offsets, i as u32))
        } else {
            self.aim_end_scan()
        }
    }

    fn resume_aim_scan(&mut self, r: &Reply) -> (a: Action)
        requires
            is_aim_scan_stage(old(self)@.stage),
            old(self)@.wf(),
        ensures
            (final(self)@, a@) == step_aim_scan(old(self)@, r@),
    {
        match self.stage {
            Stage::AimMaxPlayers => {
                let n = get_i32(r, 0);
                self.max_players = Some(n);
                self.limit = n as u32;
                self.aim_visit(0)
            },
            Stage::AimSlot => {
                let ptr = get_u32(r, 0);
                if ptr != 0 {
                    let mut e = Entity::default();
                    e.set_entity(ptr, None);
                    self.current = e;
                    self.stage = Stage::AimSlotPlayer;
                    Action::Read { addr: ptr, len: self.offsets.player.size }
                } else {
                    self.aim_visit(self.index as u64 + 1)
                }
            },
            Stage::AimSlotPlayer => {
                let p = get_player(r, &self.offsets.player, self.current.player);
                self.current.player = p;
                self.stage = Stage::AimDormant;
                let ptr = match self.current.entity {
                    Some(ptr) => ptr,
                    None => 0,
                };
                read4_action(bytes::addr_add(ptr, self.offsets.dormant))
            },
            Stage::AimDormant => {
                let dormant = get_i32(r, 1);
                let mut e = self.current;
                e.set_valid(dormant);
                let eligible = e.entity != Some(self.local_entity) && e.player.team_num
                    != self.local_player.team_num && e.valid && e.player.gun_game_immunity == 0;
                if eligible {
                    if e.player.spotted == 1 {
                        self.skip = true;
                    }
                    if !(self.skip && e.player.spotted == 0) {
                        self.candidates.push(e);
                    }
                }
                self.current = e;
                self.aim_visit(self.index as u64 + 1)
            },
            _ => self.finish(),
        }
    }

    fn resume_aim_fire(&mut self, r: &Reply) -> (a: Action)
        requires
            is_aim_fire_stage(old(self)@.stage),
        ensures
            (final(self)@, a@) == step_aim_fire(old(self)@, r@),
    {
        match self.stage {
            Stage::AimPick => {
                self.target = match r {
                    Reply::Picked(Some(k)) => if *k < self.candidates.len() {
                        self.candidates[*k]
                    } else {
                        Entity::default()
                    },
                    _ => Entity::default(),
                };
                self.stage = Stage::AimLocalPtr;
                self.local_ptr_read()
            },
            Stage::AimLocalPtr => {
                let le = get_u32(r, self.local_entity);
                self.local_entity = le;
                if le != 0 {
                    self.stage = Stage::AimLocalPlayer;
                    Action::Read { addr: le, len: self.offsets.player.size }
                } else {
                    self.stage = Stage::AimKey;
                    Action::KeyDown { vk: VK_LBUTTON }
                }
            },
            Stage::AimLocalPlayer => {
                self.local_player = get_player(r, &self.offsets.player, self.local_player);
                self.stage = Stage::AimKey;
                Action::KeyDown { vk: VK_LBUTTON }
            },
            Stage::AimKey => {
                if get_key(r) && self.target.entity.is_some() {
                    self.head = Vec3Bits::zero();
                    self.step = 0;
                    self.stage = Stage::AimBone;
                    read4_action(self.target.bone_address(HEAD_BONE, 0))
                } else {
                    self.finish()
                }
            },
            Stage::AimBone => {
                let v = get_u32(r, 0);
                if self.step == 0 {
                    self.head.x = v;
                } else if self.step == 1 {
                    self.head.y = v;
                } else {
                    self.head.z = v;
                }
                if self.step < 2 {
                    self.step = self.step + 1;
                    read4_action(self.target.bone_address(HEAD_BONE, self.step))
                } else {
                    self.stage = Stage::AimCompute;
                    Action::ComputeAim {
                        head: self.head,
                        origin: self.local_player.origin,
                        view_offset: self.local_player.view_offset,
                        punch: self.local_player.aim_punch_angle,
                    }
                }
            },
            Stage::AimCompute => match r {
                Reply::Angles(v) => {
                    self.stage = Stage::AimWrite;
                    Action::Write {
                        addr: bytes::addr_add(
                            self.client_state,
                            self.offsets.client_state_view_angles,
                        ),
                        bytes: crate::player::vec3_le_bytes(*v),
                    }
                },
                _ => self.finish(),
            },
            _ => self.finish(),
        }
    }
}

} // verus!
