use soundboard::dispatch::{dispatch, InputEvent};
use soundboard::geom::Rect;
use soundboard::hitmap::{build_hit_map, HitEntry};
use soundboard::layout::LayoutEngine;
use soundboard::registry::{ClipEntry, Key};

fn entry(trigger: Key, label: &str, bytes: &[u8]) -> ClipEntry {
    ClipEntry { trigger, label: String::from(label), bytes: bytes.to_vec() }
}

fn sample_registry() -> Vec<ClipEntry> {
    vec![
        entry(Key::Char('g'), "first", &[1, 1]),
        entry(Key::Char('b'), "second", &[2, 2]),
        entry(Key::Char('p'), "third", &[3, 3]),
    ]
}

#[test]
fn trigger_key_launches_exactly_its_entry() {
    let reg = sample_registry();
    let hits: Vec<HitEntry> = Vec::new();
    let out = dispatch(&reg, &hits, InputEvent::KeyPress(Key::Char('b')));
    assert_eq!(out.triggers, vec![1]);
    assert!(!out.quit);
    assert_eq!(reg[out.triggers[0]].bytes, vec![2, 2]);
}

#[test]
fn escape_quits_and_launches_nothing() {
    let reg = sample_registry();
    let hits: Vec<HitEntry> = Vec::new();
    let out = dispatch(&reg, &hits, InputEvent::KeyPress(Key::Esc));
    assert!(out.triggers.is_empty());
    assert!(out.quit);
}

#[test]
fn unbound_key_launches_nothing() {
    let reg = sample_registry();
    let hits: Vec<HitEntry> = Vec::new();
    let out = dispatch(&reg, &hits, InputEvent::KeyPress(Key::Char('z')));
    assert!(out.triggers.is_empty());
    assert!(!out.quit);
    let out = dispatch(&reg, &hits, InputEvent::KeyPress(Key::Other));
    assert!(out.triggers.is_empty());
    assert!(!out.quit);
}

#[test]
fn other_events_are_ignored() {
    let reg = sample_registry();
    let hits: Vec<HitEntry> = Vec::new();
    let out = dispatch(&reg, &hits, InputEvent::Other);
    assert!(out.triggers.is_empty());
    assert!(!out.quit);
}

#[test]
fn duplicate_bindings_each_fire() {
    let mut reg = sample_registry();
    reg.push(entry(Key::Char('b'), "echo", &[4, 4]));
    let hits: Vec<HitEntry> = Vec::new();
    let out = dispatch(&reg, &hits, InputEvent::KeyPress(Key::Char('b')));
    assert_eq!(out.triggers, vec![1, 3]);
}

#[test]
fn two_clips_in_one_tick_get_independent_requests() {
    let reg = sample_registry();
    let hits: Vec<HitEntry> = Vec::new();
    let first = dispatch(&reg, &hits, InputEvent::KeyPress(Key::Char('g')));
    let second = dispatch(&reg, &hits, InputEvent::KeyPress(Key::Char('p')));
    assert_eq!(first.triggers, vec![0]);
    assert_eq!(second.triggers, vec![2]);
    assert_eq!(reg[first.triggers[0]].bytes, vec![1, 1]);
    assert_eq!(reg[second.triggers[0]].bytes, vec![3, 3]);
}

#[test]
fn center_of_second_column_resolves_to_second_clip() {
    let reg = sample_registry();
    let mut e = LayoutEngine::new(3);
    e.resolve(100, 24);
    let mut hits: Vec<HitEntry> = Vec::new();
    build_hit_map(&e, &mut hits);
    // columns are 33 cells wide; the second spans x = 33..66
    let out = dispatch(&reg, &hits, InputEvent::MouseUp(49, 2));
    assert_eq!(out.triggers, vec![1]);
    assert!(!out.quit);
    assert_eq!(reg[out.triggers[0]].bytes, vec![2, 2]);
}

#[test]
fn release_outside_every_tile_launches_nothing() {
    let reg = sample_registry();
    let mut e = LayoutEngine::new(3);
    e.resolve(100, 24);
    let mut hits: Vec<HitEntry> = Vec::new();
    build_hit_map(&e, &mut hits);
    let out = dispatch(&reg, &hits, InputEvent::MouseUp(50, 20));
    assert!(out.triggers.is_empty());
    assert!(!out.quit);
}

#[test]
fn overlapping_rectangles_all_fire() {
    let reg = sample_registry();
    let hits = vec![
        HitEntry { rect: Rect { x: 0, y: 0, width: 10, height: 5 }, clip: 0 },
        HitEntry { rect: Rect { x: 5, y: 0, width: 10, height: 5 }, clip: 2 },
    ];
    let out = dispatch(&reg, &hits, InputEvent::MouseUp(7, 2));
    assert_eq!(out.triggers, vec![0, 2]);
}

#[test]
fn containment_is_half_open() {
    let r = Rect { x: 10, y: 5, width: 20, height: 5 };
    assert!(r.contains(10, 5));
    assert!(r.contains(29, 9));
    assert!(!r.contains(30, 5));
    assert!(!r.contains(10, 10));
    assert!(!r.contains(9, 5));
}
