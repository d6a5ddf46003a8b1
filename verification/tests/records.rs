use exthack::bytes::{addr_add, read_i32_le, read_u32_le, u32_le_bytes};
use exthack::dump::{lookup, offsets_from_tables, parse_dump, parse_entry, Section};
use exthack::game::glow_entry_address;
use exthack::layout::{defaults_text, fields_text, field_kind, fill_skeleton, fits, plan_layout, player_layout, sort_order, FieldKind, LayoutItem, OffsetEntry};
use exthack::names::{chars_of, decode_utf16_units, find_name, is_valid_utf16, name_contains, NameSearch};
use exthack::player::{vec3_le_bytes, Entity, Offsets, PlayerLayout, PlayerStruct, Vec3Bits};

#[test]
fn little_endian_roundtrip() {
    assert_eq!(u32_le_bytes(0x1234_5678), vec![0x78, 0x56, 0x34, 0x12]);
    let b = u32_le_bytes(0xDEAD_BEEF);
    assert_eq!(read_u32_le(&b, 0), 0xDEAD_BEEF);
    assert_eq!(read_i32_le(&u32_le_bytes(0xFFFF_FFFF), 0), -1);
    assert_eq!(read_i32_le(&vec![9, 1, 2, 3, 4], 1), 0x0403_0201);
}

#[test]
fn addresses_wrap_at_four_gigabytes() {
    assert_eq!(addr_add(0xFFFF_FFF0, 0x20), 0x10);
    assert_eq!(addr_add(0x1000, 0x20), 0x1020);
    assert_eq!(glow_entry_address(0x1000, 2, 0), 0x1000 + 0x70 + 4);
    assert_eq!(glow_entry_address(0x1000, 1, 5), 0x1000 + 0x38 + 0x25);
    assert_eq!(glow_entry_address(0, -1, 0), 0u32.wrapping_sub(0x38) + 4);
}

#[test]
fn vector_bytes() {
    let v = Vec3Bits { x: 1, y: 0x0100, z: 0x0300_0000 };
    assert_eq!(vec3_le_bytes(v), vec![1, 0, 0, 0, 0, 1, 0, 0, 0, 0, 0, 3]);
}

fn small_layout() -> PlayerLayout {
    PlayerLayout {
        size: 60,
        health: 0,
        team_num: 4,
        glow_index: 8,
        gun_game_immunity: 12,
        spotted: 13,
        flags: 16,
        bone_matrix: 20,
        origin: 24,
        view_offset: 36,
        aim_punch_angle: 48,
    }
}

#[test]
fn decode_player_record() {
    let mut b = vec![0u8; 60];
    b[0..4].copy_from_slice(&77i32.to_le_bytes());
    b[4..8].copy_from_slice(&3i32.to_le_bytes());
    b[8..12].copy_from_slice(&(-2i32).to_le_bytes());
    b[12] = 1;
    b[13] = 1;
    b[16..20].copy_from_slice(&257i32.to_le_bytes());
    b[20..24].copy_from_slice(&0xABCDu32.to_le_bytes());
    b[24..28].copy_from_slice(&5u32.to_le_bytes());
    b[56..60].copy_from_slice(&9u32.to_le_bytes());
    let p = PlayerStruct::decode(&b, &small_layout());
    assert_eq!(p.health, 77);
    assert_eq!(p.team_num, 3);
    assert_eq!(p.glow_index, -2);
    assert_eq!(p.gun_game_immunity, 1);
    assert_eq!(p.spotted, 1);
    assert_eq!(p.flags, 257);
    assert_eq!(p.bone_matrix, 0xABCD);
    assert_eq!(p.origin, Vec3Bits { x: 5, y: 0, z: 0 });
    assert_eq!(p.aim_punch_angle, Vec3Bits { x: 0, y: 0, z: 9 });
}

#[test]
fn validity_needs_health_in_range_and_not_dormant() {
    let mut e = Entity::default();
    assert_eq!(e.entity, None);
    e.set_entity(0x4000, None);
    for (health, dormant, valid) in
        [(0, 0, false), (1, 0, true), (100, 0, true), (101, 0, false), (-5, 0, false), (50, 1, false)]
    {
        e.player.health = health;
        e.set_valid(dormant);
        assert_eq!(e.valid, valid, "health {} dormant {}", health, dormant);
    }
}

#[test]
fn set_entity_keeps_state_for_null_pointer() {
    let mut e = Entity::default();
    let mut p = PlayerStruct::new();
    p.health = 42;
    e.set_entity(0, Some(p));
    assert_eq!(e, Entity::default());
    e.set_entity(0x4000, Some(p));
    assert_eq!(e.entity, Some(0x4000));
    assert_eq!(e.player.health, 42);
    e.set_entity(0x5000, None);
    assert_eq!(e.entity, Some(0x5000));
    assert_eq!(e.player.health, 42);
}

#[test]
fn slot_and_bone_addresses() {
    let o = Offsets {
        entity_list: 0x4D00,
        local_player: 0,
        glow_object_manager: 0,
        client_state: 0,
        client_state_view_angles: 0,
        client_state_max_player: 0,
        force_jump: 0,
        dormant: 0,
        player: small_layout(),
    };
    assert_eq!(Entity::slot_address(0x1000_0000, &o, 3), 0x1000_0000 + 0x4D00 + 0x30);
    let mut e = Entity::default();
    e.player.bone_matrix = 0x2000;
    assert_eq!(e.bone_address(8, 0), 0x2000 + 0x180 + 0x0C);
    assert_eq!(e.bone_address(8, 1), 0x2000 + 0x180 + 0x1C);
    assert_eq!(e.bone_address(8, 2), 0x2000 + 0x180 + 0x2C);
}

fn utf16(s: &str, len: usize) -> Vec<u16> {
    let mut v: Vec<u16> = s.encode_utf16().collect();
    v.resize(len, 0);
    v
}

#[test]
fn image_names_are_matched_by_substring() {
    let buf = utf16("\\Device\\HarddiskVolume3\\Games\\csgo.exe", 260);
    assert!(is_valid_utf16(&buf));
    assert!(name_contains(&buf, "csgo.exe"));
    assert!(!name_contains(&buf, "engine.dll"));
    assert!(name_contains(&buf, ""));
    let short = utf16("csgo", 4);
    assert!(!name_contains(&short, "csgo.exe"));
}

#[test]
fn surrogate_pairs_decode_and_lone_surrogates_are_invalid() {
    let buf = utf16("a\u{1F600}b", 4);
    assert_eq!(decode_utf16_units(&buf), Some(vec![0x61, 0x1F600, 0x62]));
    assert!(name_contains(&buf, "\u{1F600}b"));
    assert!(!is_valid_utf16(&vec![0x61, 0xD800, 0x62]));
    assert!(!is_valid_utf16(&vec![0xDC00]));
    assert!(!is_valid_utf16(&vec![0xD800]));
    assert_eq!(decode_utf16_units(&vec![]), Some(vec![]));
}

fn entry(name: &str, offset: u32) -> OffsetEntry {
    OffsetEntry { name: name.chars().collect(), offset }
}

#[test]
fn field_kinds_follow_the_name_markers() {
    let k = |n: &str| field_kind(&n.chars().collect());
    assert_eq!(k("m_iItemDefinitionIndex"), FieldKind::Byte);
    assert_eq!(k("m_iHealth"), FieldKind::Int);
    assert_eq!(k("m_vecOrigin"), FieldKind::Vector);
    assert_eq!(k("m_flFlashDuration"), FieldKind::Float);
    assert_eq!(k("m_bSpotted"), FieldKind::Byte);
    assert_eq!(k("m_dwBoneMatrix"), FieldKind::Dword);
    assert_eq!(k("m_MoveType"), FieldKind::Byte);
    assert_eq!(k("m_hActiveWeapon"), FieldKind::Int);
    assert_eq!(k("m_lifeState"), FieldKind::Byte);
    assert_eq!(k("m_aimPunchAngleVel"), FieldKind::Int);
    assert_eq!(k("m_aimPunchAngle"), FieldKind::Vector);
    assert_eq!(k("m_fFlags"), FieldKind::Int);
    assert_eq!(k("m_ArmorValue"), FieldKind::Dword);
    assert_eq!(FieldKind::Vector.size(), 12);
    assert_eq!(FieldKind::Byte.rust_type(), "u8");
    assert_eq!(FieldKind::Vector.default_value(), "D3DVECTOR {x: 0.0, y: 0.0, z: 0.0}");
    assert_eq!(FieldKind::Float.default_value(), "0.0");
    assert_eq!(FieldKind::Dword.default_value(), "0");
}

#[test]
fn sort_is_by_offset_and_stable() {
    let es = vec![entry("m_c", 8), entry("m_a", 0), entry("m_b", 8), entry("m_d", 4)];
    assert_eq!(sort_order(&es), vec![1, 3, 0, 2]);
}

#[test]
fn plan_pads_up_to_each_offset() {
    let es = vec![entry("m_iHealth", 0x100), entry("cs_gamerules_data", 0), entry("m_bSpotted", 0x93D)];
    assert!(fits(&es));
    let plan = plan_layout(&es);
    assert_eq!(plan.order, vec![1, 0, 2]);
    assert_eq!(
        plan.items,
        vec![
            LayoutItem::Field { var: 1, kind: FieldKind::Dword },
            LayoutItem::Padding { after: 0, len: 0x100 - 4 },
            LayoutItem::Field { var: 0, kind: FieldKind::Int },
            LayoutItem::Padding { after: 1, len: 0x93D - 0x104 },
            LayoutItem::Field { var: 2, kind: FieldKind::Byte },
        ]
    );
    assert_eq!(plan.size, 0x93E);
}

#[test]
fn plan_without_gaps_has_no_padding() {
    let es = vec![entry("m_iA", 0), entry("m_iB", 4)];
    let plan = plan_layout(&es);
    assert_eq!(
        plan.items,
        vec![
            LayoutItem::Field { var: 0, kind: FieldKind::Int },
            LayoutItem::Field { var: 1, kind: FieldKind::Int },
        ]
    );
    assert_eq!(plan.size, 8);
}

#[test]
fn overlapping_variables_do_not_fit() {
    assert!(!fits(&vec![entry("a", 0), entry("m_vecOrigin", 0x10), entry("m_iHealth", 0x14)]));
    // the first field is placed at the start of the record
    assert!(fits(&vec![entry("m_vecOrigin", 0x10), entry("m_iHealth", 0x14)]));
    assert!(!fits(&vec![entry("x", 0), entry("m_iHealth", 0xFFFF_FFFE)]));
    assert!(fits(&vec![]));
}

fn game_netvars() -> Vec<OffsetEntry> {
    vec![
        entry("cs_gamerules_data", 0x0),
        entry("m_iTeamNum", 0xF4),
        entry("m_iHealth", 0x100),
        entry("m_fFlags", 0x104),
        entry("m_vecViewOffset", 0x108),
        entry("m_vecOrigin", 0x138),
        entry("m_bSpotted", 0x93D),
        entry("m_dwBoneMatrix", 0x26A8),
        entry("m_aimPunchAngle", 0x303C),
        entry("m_bGunGameImmunity", 0x9990),
        entry("m_iGlowIndex", 0x10488),
    ]
}

#[test]
fn player_layout_places_fields_at_their_offsets() {
    let es = game_netvars();
    let l = player_layout(&es).unwrap();
    assert_eq!(l.team_num, 0xF4);
    assert_eq!(l.health, 0x100);
    assert_eq!(l.glow_index, 0x10488);
    assert_eq!(l.gun_game_immunity, 0x9990);
    assert_eq!(l.origin, 0x138);
    assert_eq!(l.size, 0x10488 + 4);
}

#[test]
fn player_layout_needs_every_field_with_its_type() {
    let mut es = game_netvars();
    es.pop();
    assert_eq!(player_layout(&es), None);
    let mut es = game_netvars();
    es.push(entry("m_flSimulationTime", 0x20000));
    assert!(player_layout(&es).is_some());
    assert_eq!(player_layout(&es).unwrap().size, 0x20004);
}

const DUMP: &str = "// 2023-01-01 00:00:00.000000000 UTC\r
\r
namespace hazedumper\r
{\r
    public const Int32 timestamp = 1672531200;\r
    public static class netvars\r
    {\r
        public const Int32 cs_gamerules_data = 0x0;\r
        public const Int32 m_iHealth = 0x100;\r
        public const Int32 m_iTeamNum = 0xF4;\r
    }\r
    public static class signatures\r
    {\r
        public const Int32 dwEntityList = 0x4DFFFB4;\r
\tpublic const Int32 m_bDormant = 237;\r
        public const Int32 bad = 0x1FFFFFFFF;\r
        public const Int32 alsobad = 0x12 ;\r
    }\r
} // namespace hazedumper\r
";

#[test]
fn dump_reads_both_blocks() {
    let d = parse_dump(DUMP);
    let names = |v: &Vec<OffsetEntry>| -> Vec<(String, u32)> {
        v.iter().map(|e| (e.name.iter().collect(), e.offset)).collect()
    };
    assert_eq!(
        names(&d.netvars),
        vec![
            ("cs_gamerules_data".to_string(), 0),
            ("m_iHealth".to_string(), 0x100),
            ("m_iTeamNum".to_string(), 0xF4),
        ]
    );
    assert_eq!(
        names(&d.signatures),
        vec![("dwEntityList".to_string(), 0x4DFFFB4), ("m_bDormant".to_string(), 237)]
    );
    assert_eq!(d.section, Section::Signatures);
    assert_eq!(lookup(&d.signatures, "m_bDormant"), Some(237));
    assert_eq!(lookup(&d.signatures, "dwLocalPlayer"), None);
}

#[test]
fn entry_lines() {
    let p = |s: &str| parse_entry(&chars_of(s)).map(|e| (e.name.iter().collect::<String>(), e.offset));
    assert_eq!(p("public const Int32 a_b = 0xfF;"), Some(("a_b".to_string(), 255)));
    assert_eq!(p("  public const Int32 x = 4294967295; \t"), Some(("x".to_string(), u32::MAX)));
    assert_eq!(p("public const Int32 x = 4294967296;"), None);
    assert_eq!(p("public const Int32 x = 0x;"), None);
    assert_eq!(p("public const Int32 = 1;"), None);
    assert_eq!(p("public const Int32 x = 1"), None);
    assert_eq!(p("public const Int32 x = 1;x"), None);
    assert_eq!(p("public static class netvars"), None);
}

#[test]
fn offsets_from_a_full_dump() {
    let mut text = String::from("public static class netvars\n");
    for e in game_netvars() {
        let n: String = e.name.iter().collect();
        text.push_str(&format!("public const Int32 {} = 0x{:X};\n", n, e.offset));
    }
    text.push_str("public static class signatures\n");
    for (n, v) in [
        ("dwEntityList", 0x4DFFFB4u32),
        ("dwLocalPlayer", 0xDEA98C),
        ("dwGlowObjectManager", 0x535A9C8),
        ("dwClientState", 0x59F194),
        ("dwClientState_ViewAngles", 0x4D90),
        ("dwClientState_MaxPlayer", 0x388),
        ("dwForceJump", 0x52BBC9C),
        ("m_bDormant", 0xED),
    ] {
        text.push_str(&format!("public const Int32 {} = 0x{:X};\n", n, v));
    }
    let d = parse_dump(&text);
    assert!(fits(&d.netvars));
    let o = offsets_from_tables(&d.netvars, &d.signatures).unwrap();
    assert_eq!(o.entity_list, 0x4DFFFB4);
    assert_eq!(o.dormant, 0xED);
    assert_eq!(o.client_state_max_player, 0x388);
    assert_eq!(o.player.health, 0x100);
    let mut sigs = d.signatures;
    sigs.pop();
    assert_eq!(offsets_from_tables(&d.netvars, &sigs), None);
}

#[test]
fn record_source_lines() {
    let es = vec![entry("m_iHealth", 0x100), entry("cs_gamerules_data", 0), entry("m_vecOrigin", 0x138)];
    let plan = plan_layout(&es);
    let fields: String = fields_text(&es, &plan.items).into_iter().collect();
    assert_eq!(
        fields,
        "    pub cs_gamerules_data: u32,\n    pub _p0: [u8; 252],\n    pub m_iHealth: i32,\n    pub _p1: [u8; 52],\n    pub m_vecOrigin: D3DVECTOR,"
    );
    let defaults: String = defaults_text(&es, &plan.items).into_iter().collect();
    assert_eq!(
        defaults,
        "        cs_gamerules_data: 0,\n        _p0: [0; 252],\n        m_iHealth: 0,\n        _p1: [0; 52],\n        m_vecOrigin: D3DVECTOR {x: 0.0, y: 0.0, z: 0.0},"
    );
    let none: String = fields_text(&es, &vec![]).into_iter().collect();
    assert_eq!(none, "");
    let pad: String = fields_text(&es, &vec![LayoutItem::Padding { after: 12, len: 4096 }]).into_iter().collect();
    assert_eq!(pad, "    pub _p12: [u8; 4096],");
}

fn chars(s: &str) -> Vec<char> {
    s.chars().collect()
}

fn filled(skeleton: &str, fields: &str, defaults: &str) -> String {
    fill_skeleton(&chars(skeleton), &chars(fields), &chars(defaults)).into_iter().collect()
}

#[test]
fn skeleton_placeholders_are_filled() {
    let skeleton = "pub struct PlayerStruct {\npls_skeleton\n}\nPlayerStruct {\ndefault_skeleton\n}\n";
    assert_eq!(
        filled(skeleton, "    pub m_iHealth: i32,", "        m_iHealth: 0,"),
        "pub struct PlayerStruct {\n    pub m_iHealth: i32,\n}\nPlayerStruct {\n        m_iHealth: 0,\n}\n"
    );
}

#[test]
fn skeleton_replaces_every_occurrence_from_the_left() {
    assert_eq!(filled("pls_skeletonpls_skeleton", "A", "B"), "AA");
    assert_eq!(filled("ppls_skeleton pls_skeleto", "A", "B"), "pA pls_skeleto");
    assert_eq!(filled("default_skeleton|default_skeleton", "A", "B"), "B|B");
    // the defaults are put in after the fields, so a field text holding the
    // second placeholder has it replaced too, as two replacements in turn do
    assert_eq!(filled("pls_skeleton", "default_skeleton", "B"), "B");
    assert_eq!(filled("no placeholder", "A", "B"), "no placeholder");
    assert_eq!(filled("", "A", "B"), "");
}

fn text(s: &str) -> Vec<u16> {
    s.encode_utf16().collect()
}

#[test]
fn name_search_takes_the_first_match() {
    let names = vec![
        text("\\Device\\explorer.exe"),
        text("\\Device\\csgo.exe"),
        text("\\Device\\old_csgo.exe"),
    ];
    assert_eq!(find_name(&names, "csgo.exe"), NameSearch::Found(1));
    assert_eq!(find_name(&names, "explorer"), NameSearch::Found(0));
    assert_eq!(find_name(&names, "engine.dll"), NameSearch::Missing);
    assert_eq!(find_name(&vec![], "csgo.exe"), NameSearch::Missing);
}

#[test]
fn name_search_stops_at_text_that_is_not_utf16() {
    let bad = vec![0x0063u16, 0xD800, 0x0067];
    let names = vec![text("a.exe"), bad.clone(), text("csgo.exe")];
    assert_eq!(find_name(&names, "csgo.exe"), NameSearch::Undecodable(1));
    let names = vec![text("csgo.exe"), bad];
    assert_eq!(find_name(&names, "csgo.exe"), NameSearch::Found(0));
}
