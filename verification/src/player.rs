//! The player record read from the target process, the offsets that locate
//! it, and the per-entity bookkeeping (`Entity`).
use vstd::prelude::*;
use crate::bytes;

verus! {

/// Three IEEE-754 single-precision values, held as their bit patterns.
/// The library never interprets them; it only moves them between reads,
/// the caller's floating-point computations and writes.
#[derive(Clone, Copy, PartialEq, Eq, Structural, Debug)]
pub struct Vec3Bits {
    pub x: u32,
    pub y: u32,
    pub z: u32,
}

impl Vec3Bits {
    /// All three components `0.0`.
    pub open spec fn spec_zero() -> Vec3Bits {
        Vec3Bits { x: 0, y: 0, z: 0 }
    }

    pub fn zero() -> (v: Vec3Bits)
        ensures
            v == Vec3Bits::spec_zero(),
    {
        Vec3Bits { x: 0, y: 0, z: 0 }
    }
}

/// The fields of the game's player record that the tool reads.
#[derive(Clone, Copy, PartialEq, Eq, Structural, Debug)]
pub struct PlayerStruct {
    pub health: i32,
    pub team_num: i32,
    pub glow_index: i32,
    pub gun_game_immunity: u8,
    pub spotted: u8,
    pub flags: i32,
    pub bone_matrix: u32,
    pub origin: Vec3Bits,
    pub view_offset: Vec3Bits,
    pub aim_punch_angle: Vec3Bits,
}

/// Where each field sits inside the player record, and the record's size.
#[derive(Clone, Copy, PartialEq, Eq, Structural, Debug)]
pub struct PlayerLayout {
    pub size: u32,
    pub health: u32,
    pub team_num: u32,
    pub glow_index: u32,
    pub gun_game_immunity: u32,
    pub spotted: u32,
    pub flags: u32,
    pub bone_matrix: u32,
    pub origin: u32,
    pub view_offset: u32,
    pub aim_punch_angle: u32,
}

/// The offsets the tool needs: positions of globals relative to a module
/// or to the client state, and the layout of the player record.
#[derive(Clone, Copy, PartialEq, Eq, Structural, Debug)]
pub struct Offsets {
    pub entity_list: u32,
    pub local_player: u32,
    pub glow_object_manager: u32,
    pub client_state: u32,
    pub client_state_view_angles: u32,
    pub client_state_max_player: u32,
    pub force_jump: u32,
    pub dormant: u32,
    pub player: PlayerLayout,
}

impl PlayerLayout {
    /// Every field lies inside the record.
    pub open spec fn wf(self) -> bool {
        &&& self.health + 4 <= self.size
        &&& self.team_num + 4 <= self.size
        &&& self.glow_index + 4 <= self.size
        &&& self.gun_game_immunity + 1 <= self.size
        &&& self.spotted + 1 <= self.size
        &&& self.flags + 4 <= self.size
        &&& self.bone_matrix + 4 <= self.size
        &&& self.origin + 12 <= self.size
        &&& self.view_offset + 12 <= self.size
        &&& self.aim_punch_angle + 12 <= self.size
    }
}

/// The three bit patterns stored little-endian at `b[at..at + 12]`.
pub open spec fn le_vec3(b: Seq<u8>, at: int) -> Vec3Bits {
    Vec3Bits { x: bytes::le_u32(b, at), y: bytes::le_u32(b, at + 4), z: bytes::le_u32(b, at + 8) }
}

/// The twelve little-endian bytes of `v`.
pub open spec fn vec3_bytes(v: Vec3Bits) -> Seq<u8> {
    bytes::u32_bytes(v.x) + bytes::u32_bytes(v.y) + bytes::u32_bytes(v.z)
}

fn read_vec3(b: &Vec<u8>, at: usize) -> (v: Vec3Bits)
    requires
        at + 12 <= b.len(),
    ensures
        v == le_vec3(b@, at as int),
{
    Vec3Bits { x: bytes::read_u32_le(b, at), y: bytes::read_u32_le(b, at + 4), z: bytes::read_u32_le(b, at + 8) }
}

/// The twelve little-endian bytes of `v`.
pub fn vec3_le_bytes(v: Vec3Bits) -> (b: Vec<u8>)
    ensures
        b@ == vec3_bytes(v),
{
    let mut b = Vec::new();
    bytes::push_u32_le(&mut b, v.x);
    bytes::push_u32_le(&mut b, v.y);
    bytes::push_u32_le(&mut b, v.z);
    assert(b@ =~= vec3_bytes(v));
    b
}

impl PlayerStruct {
    /// The record with every field zero, as the tool starts with.
    pub open spec fn spec_default() -> PlayerStruct {
        PlayerStruct {
            health: 0,
            team_num: 0,
            glow_index: 0,
            gun_game_immunity: 0,
            spotted: 0,
            flags: 0,
            bone_matrix: 0,
            origin: Vec3Bits::spec_zero(),
            view_offset: Vec3Bits::spec_zero(),
            aim_punch_angle: Vec3Bits::spec_zero(),
        }
    }

    /// The record whose bytes, laid out as `l` says, are `b`.
    pub open spec fn spec_decode(b: Seq<u8>, l: PlayerLayout) -> PlayerStruct {
        PlayerStruct {
            health: bytes::le_i32(b, l.health as int),
            team_num: bytes::le_i32(b, l.team_num as int),
            glow_index: bytes::le_i32(b, l.glow_index as int),
            gun_game_immunity: b[l.gun_game_immunity as int],
            spotted: b[l.spotted as int],
            flags: bytes::le_i32(b, l.flags as int),
            bone_matrix: bytes::le_u32(b, l.bone_matrix as int),
            origin: le_vec3(b, l.origin as int),
            view_offset: le_vec3(b, l.view_offset as int),
            aim_punch_angle: le_vec3(b, l.aim_punch_angle as int),
        }
    }

    pub fn new() -> (p: PlayerStruct)
        ensures
            p == PlayerStruct::spec_default(),
    {
        PlayerStruct {
            health: 0,
            team_num: 0,
            glow_index: 0,
            gun_game_immunity: 0,
            spotted: 0,
            flags: 0,
            bone_matrix: 0,
            origin: Vec3Bits::zero(),
            view_offset: Vec3Bits::zero(),
            aim_punch_angle: Vec3Bits::zero(),
        }
    }

    /// Decodes a whole player record read from the target process.
    pub fn decode(b: &Vec<u8>, l: &PlayerLayout) -> (p: PlayerStruct)
        requires
            l.wf(),
            b@.len() == l.size,
        ensures
            p == PlayerStruct::spec_decode(b@, *l),
    {
        PlayerStruct {
            health: bytes::read_i32_le(b, l.health as usize),
            team_num: bytes::read_i32_le(b, l.team_num as usize),
            glow_index: bytes::read_i32_le(b, l.glow_index as usize),
            gun_game_immunity: b[l.gun_game_immunity as usize],
            spotted: b[l.spotted as usize],
            flags: bytes::read_i32_le(b, l.flags as usize),
            bone_matrix: bytes::read_u32_le(b, l.bone_matrix as usize),
            origin: read_vec3(b, l.origin as usize),
            view_offset: read_vec3(b, l.view_offset as usize),
            aim_punch_angle: read_vec3(b, l.aim_punch_angle as usize),
        }
    }
}

/// An entity is valid when it is alive with at most full health
/// (`0 < health < 101`) and its dormant flag is clear.
pub open spec fn spec_is_valid(health: i32, dormant: i32) -> bool {
    0 < health < 101 && dormant == 0
}

/// One slot of the game's entity list, as the tool sees it.
#[derive(Clone, Copy, PartialEq, Eq, Structural, Debug)]
pub struct Entity {
    pub entity: Option<u32>,
    pub player: PlayerStruct,
    pub valid: bool,
}

/// The address of slot `idx` of the entity list.
pub open spec fn spec_slot_address(game_module: u32, o: Offsets, idx: u32) -> u32 {
    bytes::wrap32(game_module + o.entity_list + 0x10 * idx)
}

/// The address of component `k` (x, y, z for 0, 1, 2) of bone `bone_id`'s
/// position in a bone matrix at `matrix`.
pub open spec fn spec_bone_address(matrix: u32, bone_id: u32, k: int) -> u32 {
    bytes::wrap32(matrix + 0x30 * bone_id + 0x0C + 0x10 * k)
}

impl Entity {
    /// No entity, a zeroed record, not valid.
    pub open spec fn spec_empty() -> Entity {
        Entity { entity: None, player: PlayerStruct::spec_default(), valid: false }
    }

    /// The address of slot `idx` of the entity list.
    pub fn slot_address(game_module: u32, o: &Offsets, idx: u32) -> (a: u32)
        ensures
            a == spec_slot_address(game_module, *o, idx),
    {
        let base = bytes::addr_add(game_module, o.entity_list);
        let step = ((0x10u64 * idx as u64) % 0x1_0000_0000u64) as u32;
        let a = bytes::addr_add(base, step);
        proof {
            let x = game_module + o.entity_list;
            let y = 0x10 * idx;
            assert(base == x % bytes::addr_space());
            assert(step == y % bytes::addr_space());
            vstd::arithmetic::div_mod::lemma_add_mod_noop(x, y, bytes::addr_space());
        }
        a
    }

    /// Records what the entity list slot held: a non-null `pointer` makes
    /// this entity present, and a record read at it replaces `player`.
    pub fn set_entity(&mut self, pointer: u32, player: Option<PlayerStruct>)
        ensures
            pointer == 0 ==> *final(self) == *old(self),
            pointer != 0 ==> final(self).entity == Some(pointer),
            pointer != 0 ==> final(self).player == (match player {
                Some(p) => p,
                None => old(self).player,
            }),
            final(self).valid == old(self).valid,
    {
        if pointer != 0 {
            self.entity = Some(pointer);
            if let Some(p) = player {
                self.player = p;
            }
        }
    }

    /// Sets `valid` from the current health and the dormant flag read
    /// from the target process, for an entity that is present.
    pub fn set_valid(&mut self, dormant: i32)
        requires
            old(self).entity is Some,
        ensures
            final(self).valid == spec_is_valid(old(self).player.health, dormant),
            final(self).entity == old(self).entity,
            final(self).player == old(self).player,
    {
        self.valid = self.player.health > 0 && self.player.health < 101 && dormant == 0;
    }

    /// The address of component `k` of the position of bone `bone_id`.
    pub fn bone_address(&self, bone_id: u32, k: u32) -> (a: u32)
        requires
            k < 3,
        ensures
            a == spec_bone_address(self.player.bone_matrix, bone_id, k as int),
    {
        let m = self.player.bone_matrix;
        let rel = ((0x30u64 * bone_id as u64 + 0x0C + 0x10 * k as u64) % 0x1_0000_0000u64) as u32;
        let a = bytes::addr_add(m, rel);
        proof {
            let y = 0x30 * bone_id + 0x0C + 0x10 * k;
            assert(rel == y % bytes::addr_space());
            vstd::arithmetic::div_mod::lemma_add_mod_noop(m as int, y, bytes::addr_space());
            vstd::arithmetic::div_mod::lemma_mod_twice(m as int, bytes::addr_space());
            vstd::arithmetic::div_mod::lemma_small_mod(m as nat, bytes::addr_space() as nat);
        }
        a
    }
}

impl Default for Entity {
    fn default() -> (e: Entity)
        ensures
            e == Entity::spec_empty(),
    {
        Entity { entity: None, player: PlayerStruct::new(), valid: false }
    }
}

} // verus!
