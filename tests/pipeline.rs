use overlay_core::classify::{
    classify, find_entry_object, MatchKind, ObjectCategory, ObjectLayout, Rule, RuleTable,
};
use overlay_core::memory::{MemoryImage, ReadRequest};
use overlay_core::walk::Walk;
use overlay_core::world::{resolve_world, snapshot, ObjectArray, WorldLayout};

const ARENA: u64 = 0x1000;
const ARENA_LEN: usize = 0x40000;

const ROOT: u64 = 0x1000;
const GAME: u64 = 0x2000;
const DIRECTOR: u64 = 0x3000;
const SESSION: u64 = 0x4000;
const LEVEL: u64 = 0x5000;
const LEVEL_CORE: u64 = 0x6000;
const CLIENT: u64 = 0x7000;
const PLAYER: u64 = 0x8000;
const PLAYER_MODEL: u64 = 0xA000;
const CAMERA_MANAGER: u64 = 0xB000;
const CAMERA: u64 = 0xC000;

const OBJECT: u64 = 0x20000;
const MODEL: u64 = 0x22000;
const HEALTH_MODULE: u64 = 0x24000;
const TAG: u64 = 0x26000;
const ENTRY: u64 = 0x28000;

fn put(buf: &mut [u8], addr: u64, bytes: &[u8]) {
    let at = (addr - ARENA) as usize;
    buf[at..at + bytes.len()].copy_from_slice(bytes);
}

fn put_ptr(buf: &mut [u8], addr: u64, value: u64) {
    put(buf, addr, &value.to_le_bytes());
}

fn put_f32(buf: &mut [u8], addr: u64, value: f32) {
    put(buf, addr, &value.to_bits().to_le_bytes());
}

/// An arena that holds a full world chain and one object reached from one
/// array entry, with the given flag word and tag.
fn arena(flags: u32, tag: &str) -> Vec<u8> {
    let mut b = vec![0u8; ARENA_LEN];
    put_ptr(&mut b, ROOT, GAME);
    put_ptr(&mut b, GAME + 0x98, DIRECTOR);
    put_ptr(&mut b, DIRECTOR + 0x540, SESSION);
    put_ptr(&mut b, SESSION + 0xB0, LEVEL);
    put_ptr(&mut b, LEVEL + 0x8, LEVEL_CORE);
    put_ptr(&mut b, SESSION + 0xB8, CLIENT);
    put_ptr(&mut b, CLIENT + 0x50, PLAYER);
    put_f32(&mut b, PLAYER + 0x7B0, 10.0);
    put_f32(&mut b, PLAYER + 0x7B4, 20.0);
    put_f32(&mut b, PLAYER + 0x7B8, 30.0);
    put_ptr(&mut b, PLAYER - 0x50, PLAYER_MODEL);
    put_ptr(&mut b, SESSION + 0xC0, CAMERA_MANAGER);
    put_ptr(&mut b, CAMERA_MANAGER + 0x50, CAMERA);

    put_ptr(&mut b, ENTRY, OBJECT + 0x18);
    put_ptr(&mut b, OBJECT + 0x20, MODEL);
    put(&mut b, MODEL + 0x340, &flags.to_le_bytes());
    put_f32(&mut b, MODEL + 0x11C, 1.5);
    put_f32(&mut b, MODEL + 0x12C, -2.5);
    put_f32(&mut b, MODEL + 0x13C, 3.0);
    put_ptr(&mut b, OBJECT + 0xCE8, HEALTH_MODULE);
    put_f32(&mut b, HEALTH_MODULE + 0x78, 100.0);
    put_ptr(&mut b, MODEL + 0x60, TAG);
    put(&mut b, TAG, tag.as_bytes());
    put(&mut b, TAG + tag.len() as u64, &[0]);
    b
}

fn image_of(buf: Vec<u8>) -> MemoryImage {
    let mut image = MemoryImage::new();
    image.map(ARENA, buf);
    image
}

fn classify_object(image: &MemoryImage) -> Option<ObjectCategory> {
    classify(&ObjectLayout::standard(), &RuleTable::standard(), image, OBJECT).map(|c| c.category)
}

/// Resolves the world, reads the array, follows its only entry and
/// classifies the object there.
fn run_frame(image: &MemoryImage) -> Option<ObjectCategory> {
    resolve_world(&WorldLayout::standard(), image, ROOT)?;
    let mut header = Vec::new();
    header.extend_from_slice(&ENTRY.to_le_bytes());
    header.extend_from_slice(&1u32.to_le_bytes());
    header.extend_from_slice(&4u32.to_le_bytes());
    let array = ObjectArray::from_header(&header)?;
    let entry = array.entry(0)?;
    let layout = ObjectLayout::standard();
    let object = find_entry_object(&layout, image, entry)?;
    assert_eq!(object, OBJECT);
    classify(&layout, &RuleTable::standard(), image, object).map(|c| c.category)
}

#[test]
fn world_resolves_on_full_chain() {
    let image = image_of(arena(0x40, "Foo;Bite_Zombie_01"));
    let w = resolve_world(&WorldLayout::standard(), &image, ROOT).expect("chain resolves");
    assert_eq!(w.game, GAME);
    assert_eq!(w.game_director, DIRECTOR);
    assert_eq!(w.session, SESSION);
    assert_eq!(w.level, LEVEL);
    assert_eq!(w.level_core, LEVEL_CORE);
    assert_eq!(w.local_client, CLIENT);
    assert_eq!(w.player, PLAYER);
    assert_eq!(w.player_position, PLAYER + 0x7B0);
    assert_eq!(w.camera_angle, PLAYER + 0x111C);
    assert_eq!(w.player_model, PLAYER_MODEL);
    assert_eq!(w.camera_manager, CAMERA_MANAGER);
    assert_eq!(w.camera, CAMERA);
}

#[test]
fn end_to_end_bite_is_zombie_normal() {
    let image = image_of(arena(0x40, "Foo;Bite_Zombie_01"));
    assert_eq!(run_frame(&image), Some(ObjectCategory::ZombieNormal));
}

#[test]
fn end_to_end_player_tag_is_player_human() {
    let image = image_of(arena(0x20, "Foo;PlayerM1"));
    assert_eq!(run_frame(&image), Some(ObjectCategory::PlayerHuman));
}

#[test]
fn end_to_end_unknown_tag_with_survivor_flag_is_survivor_normal() {
    let image = image_of(arena(0x2000, "Foo;Unknown_Thing"));
    assert_eq!(run_frame(&image), Some(ObjectCategory::SurvivorNormal));
}

#[test]
fn end_to_end_unknown_tag_without_survivor_flag_is_other() {
    let image = image_of(arena(0x4000, "Foo;Unknown_Thing"));
    assert_eq!(run_frame(&image), Some(ObjectCategory::Other));
}

#[test]
fn classified_attributes_hold_the_fields_read() {
    let image = image_of(arena(0x40, "Foo;Bite_Zombie_01"));
    let c = classify(&ObjectLayout::standard(), &RuleTable::standard(), &image, OBJECT).unwrap();
    let a = c.attributes;
    assert_eq!(a.object, OBJECT);
    assert_eq!(a.model, MODEL);
    assert_eq!(a.flags, 0x40);
    assert_eq!(f32::from_bits(a.position_x), 1.5);
    assert_eq!(f32::from_bits(a.position_y), -2.5);
    assert_eq!(f32::from_bits(a.position_z), 3.0);
    assert_eq!(f32::from_bits(a.health), 100.0);
    assert_eq!(a.tag, b"Foo;Bite_Zombie_01".to_vec());
}

/// Runs a walk by hand, keeping every request it makes.
fn run_logged(mut w: Walk, image: &MemoryImage) -> (Walk, Vec<ReadRequest>) {
    let mut log = Vec::new();
    while let Some(req) = w.next_read() {
        log.push(req);
        let reply = image.read(req);
        w.feed(reply);
    }
    (w, log)
}

fn request_addr(r: &ReadRequest) -> u64 {
    match *r {
        ReadRequest::Bytes { addr, .. } => addr,
        ReadRequest::Text { addr } => addr,
    }
}

#[test]
fn broken_chain_stops_at_the_unreadable_hop() {
    // The session is readable for 8 bytes only: the level pointer at
    // session + 0xB0 cannot be read, and everything past it is poisoned.
    let mut buf = arena(0x40, "Foo;Bite_Zombie_01");
    put_ptr(&mut buf, DIRECTOR + 0x540, 0x90000);
    let mut image = MemoryImage::new();
    image.map(0x90000, vec![0u8; 8]);
    image.map(ARENA, buf);
    let layout = WorldLayout::standard();
    let (w, log) = run_logged(layout.start(ROOT), &image);
    assert!(w.is_failed());
    assert!(snapshot(&w).is_none());
    assert_eq!(log.last(), Some(&ReadRequest::Bytes { addr: 0x900B0, width: 8 }));
    // root, game, director, session: two reads each, then the failing one
    assert_eq!(log.len(), 7);
    assert!(log.iter().all(|r| request_addr(r) < 0x900B0 + 1));
    assert_eq!(resolve_world(&layout, &image, ROOT), None);
}

#[test]
fn every_broken_hop_breaks_the_world() {
    let hops: [(u64, u64); 9] = [
        (ROOT, 0),
        (GAME + 0x98, 0),
        (DIRECTOR + 0x540, 0),
        (SESSION + 0xB0, 0),
        (LEVEL + 0x8, 0),
        (SESSION + 0xB8, 0),
        (CLIENT + 0x50, 0),
        (SESSION + 0xC0, 0),
        (CAMERA_MANAGER + 0x50, 0),
    ];
    for (at, value) in hops {
        let mut buf = arena(0x40, "Foo;Bite_Zombie_01");
        put_ptr(&mut buf, at, value);
        let image = image_of(buf);
        assert_eq!(resolve_world(&WorldLayout::standard(), &image, ROOT), None, "hop at {at:#x}");
        let mut buf = arena(0x40, "Foo;Bite_Zombie_01");
        put_ptr(&mut buf, at, 0xDEAD_0000);
        let image = image_of(buf);
        assert_eq!(resolve_world(&WorldLayout::standard(), &image, ROOT), None, "hop at {at:#x}");
    }
}

#[test]
fn unspawned_player_breaks_the_world() {
    let mut buf = arena(0x40, "Foo;Bite_Zombie_01");
    put(&mut buf, PLAYER + 0x7B0, &[0u8; 12]);
    assert_eq!(resolve_world(&WorldLayout::standard(), &image_of(buf), ROOT), None);
    let mut buf = arena(0x40, "Foo;Bite_Zombie_01");
    put(&mut buf, PLAYER + 0x7B0, &[0, 0, 0, 0x80, 0, 0, 0, 0, 0, 0, 0, 0x80]);
    assert_eq!(resolve_world(&WorldLayout::standard(), &image_of(buf), ROOT), None);
}

#[test]
fn player_with_one_coordinate_set_resolves() {
    let mut buf = arena(0x40, "Foo;Bite_Zombie_01");
    put(&mut buf, PLAYER + 0x7B0, &[0u8; 12]);
    put_f32(&mut buf, PLAYER + 0x7B8, 0.25);
    assert!(resolve_world(&WorldLayout::standard(), &image_of(buf), ROOT).is_some());
}

#[test]
fn address_past_the_end_of_memory_breaks_the_world() {
    let mut buf = arena(0x40, "Foo;Bite_Zombie_01");
    put_ptr(&mut buf, ROOT, u64::MAX - 0x10);
    let mut image = MemoryImage::new();
    image.map(u64::MAX - 0x10, vec![0u8; 8]);
    image.map(ARENA, buf);
    assert_eq!(resolve_world(&WorldLayout::standard(), &image, ROOT), None);
}

#[test]
fn denied_low_flag_bytes_are_rejected() {
    for flags in [0x01u32, 0x02, 0x08, 0x2001, 0xFFFF_FF08] {
        let image = image_of(arena(flags, "Foo;Bite_Zombie_01"));
        assert_eq!(classify_object(&image), None, "flags {flags:#x}");
    }
}

#[test]
fn zero_flag_word_is_rejected() {
    let image = image_of(arena(0, "Foo;Bite_Zombie_01"));
    assert_eq!(classify_object(&image), None);
}

#[test]
fn denied_second_flag_byte_is_rejected() {
    let mut layout = ObjectLayout::standard();
    layout.deny_second = vec![0x10];
    let image = image_of(arena(0x1040, "Foo;Bite_Zombie_01"));
    assert!(classify(&layout, &RuleTable::standard(), &image, OBJECT).is_none());
    let image = image_of(arena(0x2040, "Foo;Bite_Zombie_01"));
    assert!(classify(&layout, &RuleTable::standard(), &image, OBJECT).is_some());
}

#[test]
fn tag_without_delimiter_is_rejected() {
    let image = image_of(arena(0x40, "Bite_Zombie_01"));
    assert_eq!(classify_object(&image), None);
}

#[test]
fn tag_with_empty_name_is_rejected() {
    let image = image_of(arena(0x40, "Foo;"));
    assert_eq!(classify_object(&image), None);
}

#[test]
fn empty_tag_is_rejected() {
    let image = image_of(arena(0x40, ""));
    assert_eq!(classify_object(&image), None);
}

#[test]
fn name_is_what_follows_the_first_delimiter() {
    let image = image_of(arena(0x40, "Foo;Bar;PlayerM1"));
    // "Bar;PlayerM1" matches no rule: the fallback decides
    assert_eq!(classify_object(&image), Some(ObjectCategory::Other));
    let image = image_of(arena(0x40, ";Volatile"));
    assert_eq!(classify_object(&image), Some(ObjectCategory::ZombieHunter));
}

#[test]
fn zero_position_is_rejected() {
    let mut buf = arena(0x40, "Foo;Bite_Zombie_01");
    put_f32(&mut buf, MODEL + 0x11C, 0.0);
    put_f32(&mut buf, MODEL + 0x12C, -0.0);
    put_f32(&mut buf, MODEL + 0x13C, 0.0);
    assert_eq!(classify_object(&image_of(buf)), None);
}

#[test]
fn position_with_one_nonzero_coordinate_is_kept() {
    let mut buf = arena(0x40, "Foo;Bite_Zombie_01");
    put_f32(&mut buf, MODEL + 0x11C, 0.0);
    put_f32(&mut buf, MODEL + 0x12C, 0.0);
    put_f32(&mut buf, MODEL + 0x13C, 7.0);
    assert_eq!(classify_object(&image_of(buf)), Some(ObjectCategory::ZombieNormal));
}

#[test]
fn zero_health_is_rejected() {
    let mut buf = arena(0x40, "Foo;Bite_Zombie_01");
    put_f32(&mut buf, HEALTH_MODULE + 0x78, 0.0);
    assert_eq!(classify_object(&image_of(buf)), None);
    let mut buf = arena(0x40, "Foo;Bite_Zombie_01");
    put_f32(&mut buf, HEALTH_MODULE + 0x78, -0.0);
    assert_eq!(classify_object(&image_of(buf)), None);
}

#[test]
fn unreadable_or_null_pointers_are_rejected() {
    for at in [OBJECT + 0x20, OBJECT + 0xCE8, MODEL + 0x60] {
        let mut buf = arena(0x40, "Foo;Bite_Zombie_01");
        put_ptr(&mut buf, at, 0);
        assert_eq!(classify_object(&image_of(buf)), None, "null at {at:#x}");
        let mut buf = arena(0x40, "Foo;Bite_Zombie_01");
        put_ptr(&mut buf, at, 0xDEAD_0000);
        assert_eq!(classify_object(&image_of(buf)), None, "wild at {at:#x}");
    }
}

#[test]
fn unterminated_tag_is_rejected() {
    let mut buf = arena(0x40, "Foo;Bite_Zombie_01");
    put_ptr(&mut buf, MODEL + 0x60, 0x90000);
    let mut image = MemoryImage::new();
    image.map(0x90000, b"Foo;Bite_Zombie_01".to_vec());
    image.map(ARENA, buf);
    assert_eq!(classify_object(&image), None);
}

#[test]
fn entry_leads_back_to_its_object() {
    let image = image_of(arena(0x40, "Foo;Bite_Zombie_01"));
    let layout = ObjectLayout::standard();
    assert_eq!(find_entry_object(&layout, &image, ENTRY), Some(OBJECT));
    assert_eq!(find_entry_object(&layout, &image, 0xDEAD_0000), None);
    let mut buf = arena(0x40, "Foo;Bite_Zombie_01");
    put_ptr(&mut buf, ENTRY, 0);
    assert_eq!(find_entry_object(&layout, &image_of(buf), ENTRY), None);
}

#[test]
fn object_array_header() {
    let mut header = Vec::new();
    header.extend_from_slice(&0x1234_5678_9ABCu64.to_le_bytes());
    header.extend_from_slice(&3u32.to_le_bytes());
    header.extend_from_slice(&8u32.to_le_bytes());
    let a = ObjectArray::from_header(&header).unwrap();
    assert_eq!(a.ptr, 0x1234_5678_9ABC);
    assert_eq!(a.len, 3);
    assert_eq!(a.max, 8);
    assert_eq!(a.entry(0), Some(0x1234_5678_9ABC));
    assert_eq!(a.entry(2), Some(0x1234_5678_9ABC + 16));
    assert_eq!(a.entry(3), None);
    let far = ObjectArray { ptr: u64::MAX - 8, len: 4, max: 4 };
    assert_eq!(far.entry(1), Some(u64::MAX));
    assert_eq!(far.entry(2), None);
}

#[test]
fn empty_or_short_object_array_is_not_populated() {
    let mut header = Vec::new();
    header.extend_from_slice(&0x5000u64.to_le_bytes());
    header.extend_from_slice(&0u32.to_le_bytes());
    header.extend_from_slice(&8u32.to_le_bytes());
    assert_eq!(ObjectArray::from_header(&header), None);
    assert_eq!(ObjectArray::from_header(&header[..12]), None);
}

#[test]
fn custom_table_order_decides_overlapping_tags() {
    let table = RuleTable {
        rules: vec![
            Rule { kind: MatchKind::Contains, pattern: b"Goo".to_vec(), category: ObjectCategory::ZombieSpecial },
            Rule { kind: MatchKind::Contains, pattern: b"Volatile".to_vec(), category: ObjectCategory::ZombieHunter },
        ],
        survivor_flag: 0x20,
    };
    let image = image_of(arena(0x40, "Foo;Goon_Volatile"));
    let c = classify(&ObjectLayout::standard(), &table, &image, OBJECT).unwrap();
    assert_eq!(c.category, ObjectCategory::ZombieSpecial);
}
