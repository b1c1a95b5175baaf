use input_display::config::{parse_config, parse_line, ConfigParseError, Directive};
use input_display::geometry::{Rectangle, Vertex};
use input_display::keyboard::{Color, Keyboard, KeyboardElement};
use input_display::keymap::{decode, Keymap};
use input_display::scheduler::{next_deadline, step, tick, Action, Event, SchedulerState, FRAME_NS};

const SAMPLE_CONFIG: &str = "pressed:r=255,g=0,b=0,a=255\nbackground:r=0,g=0,b=0,a=255\nkey:x=0,y=0,w=80,h=80,keycode=38\n";

fn raw_with(index: usize) -> [u8; 32] {
    let mut raw = [0u8; 32];
    raw[index / 8] |= 1 << (index % 8);
    raw
}

fn keymap_with(indices: &[usize]) -> Keymap {
    let mut raw = [0u8; 32];
    for &i in indices {
        raw[i / 8] |= 1 << (i % 8);
    }
    let mut km = Keymap::new();
    km.update_keymap(&raw);
    km
}

fn normalized(v: Vertex) -> (f32, f32) {
    (v.x as f32 / 80.0, v.y as f32 / 80.0)
}

#[test]
fn decode_matches_bit_formula() {
    let mut raw = [0u8; 32];
    for (b, byte) in raw.iter_mut().enumerate() {
        *byte = (b as u8).wrapping_mul(37).wrapping_add(11);
    }
    let table = decode(&raw);
    assert_eq!(table.len(), 256);
    for i in 0..256 {
        assert_eq!(table[i], (raw[i / 8] >> (i % 8)) & 1 != 0);
    }
}

#[test]
fn decode_single_bit() {
    let table = decode(&raw_with(46));
    for i in 0..256 {
        assert_eq!(table[i], i == 46);
    }
}

#[test]
fn get_key_reads_with_offset() {
    let km = keymap_with(&[46]);
    assert!(km.get_key(38));
    assert!(!km.get_key(46));
    for c in 0..=247u8 {
        assert_eq!(km.get_key(c), c == 38);
    }
    let top = keymap_with(&[255]);
    assert!(top.get_key(247));
}

#[test]
fn new_keymap_has_nothing_pressed() {
    let km = Keymap::new();
    assert!(km.pressed_codes().is_empty());
}

#[test]
fn pressed_codes_lists_in_order() {
    let km = keymap_with(&[8, 50, 13, 255, 3]);
    assert_eq!(km.pressed_codes(), vec![0, 5, 42, 247]);
}

#[test]
fn region_or_of_two_codes() {
    let area = Rectangle::new(0, 0, 10, 10);
    let mut e = KeyboardElement::new(area, vec![5, 9]);
    assert!(!e.pressed);
    e.update(&keymap_with(&[13]));
    assert!(e.pressed);
    e.update(&keymap_with(&[17]));
    assert!(e.pressed);
    e.update(&keymap_with(&[13, 17]));
    assert!(e.pressed);
    e.update(&keymap_with(&[14, 16, 5, 9]));
    assert!(!e.pressed);
    assert_eq!(e.keys, vec![5, 9]);
    assert_eq!(e.area, area);
}

#[test]
fn map_lower_left_quarter() {
    let r = Rectangle::new(0, 0, 80, 80);
    let v = r.vertices();
    assert_eq!(v.len(), 6);
    assert_eq!(v[0], Vertex { x: -80, y: -80 });
    assert_eq!(v[4], Vertex { x: 0, y: 0 });
    assert_eq!(normalized(v[0]), (-1.0, -1.0));
    assert_eq!(normalized(v[4]), (0.0, 0.0));
}

#[test]
fn map_upper_right_quarter() {
    let v = Rectangle::new(80, 80, 80, 80).vertices();
    assert_eq!(normalized(v[0]), (0.0, 0.0));
    assert_eq!(normalized(v[4]), (1.0, 1.0));
}

#[test]
fn map_triangle_order() {
    let v = Rectangle::new(40, 20, 8, 16).vertices();
    let expected = [(-40, -60), (-32, -60), (-40, -44), (-32, -60), (-32, -44), (-40, -44)];
    for (got, want) in v.iter().zip(expected.iter()) {
        assert_eq!((got.x, got.y), *want);
    }
    assert_eq!(Rectangle::new(40, 20, 8, 16), Rectangle { x: -40, y: -60, w: 8, h: 16 });
}

#[test]
fn canvas_bounds() {
    assert!(Rectangle::new(0, 0, 160, 160).in_canvas());
    assert!(!Rectangle::new(0, 0, 161, 10).in_canvas());
    assert!(!Rectangle::new(-1, 0, 10, 10).in_canvas());
    assert!(!Rectangle::new(i32::MAX, i32::MIN, i32::MAX, i32::MIN).in_canvas());
}

#[test]
fn refresh_twice_is_idempotent() {
    let mut kb = Keyboard::new(Color(0, 0, 0, 255), Color(255, 0, 0, 255));
    kb.add_region(vec![38], Rectangle::new(0, 0, 80, 80));
    kb.add_region(vec![5, 9], Rectangle::new(80, 0, 80, 80));
    kb.add_region(vec![1], Rectangle::new(0, 80, 80, 80));
    let km = keymap_with(&[46, 17]);
    kb.update(&km);
    let first: Vec<bool> = kb.keys.iter().map(|k| k.pressed).collect();
    kb.update(&km);
    let second: Vec<bool> = kb.keys.iter().map(|k| k.pressed).collect();
    assert_eq!(first, vec![true, true, false]);
    assert_eq!(first, second);
    assert_eq!(kb.pressed_regions(), vec![0, 1]);
}

#[test]
fn sample_config_one_region() {
    let cfg = parse_config(SAMPLE_CONFIG).unwrap();
    let kb = &cfg.keyboard;
    assert_eq!(kb.keys.len(), 1);
    assert!(cfg.skipped.is_empty());
    let v = kb.keys[0].area.vertices();
    assert_eq!(normalized(v[0]), (-1.0, -1.0));
    assert_eq!(normalized(v[4]), (0.0, 0.0));
    assert_eq!(kb.keys[0].keys, vec![38]);
    assert_eq!(kb.pressed, Color(255, 0, 0, 255));
    assert_eq!(kb.background, Color(0, 0, 0, 255));
    let p = kb.pressed;
    let rgba = [p.0 as f32 / 255.0, p.1 as f32 / 255.0, p.2 as f32 / 255.0, p.3 as f32 / 255.0];
    assert_eq!(rgba, [1.0, 0.0, 0.0, 1.0]);
    let b = kb.background;
    let rgba = [b.0 as f32 / 255.0, b.1 as f32 / 255.0, b.2 as f32 / 255.0, b.3 as f32 / 255.0];
    assert_eq!(rgba, [0.0, 0.0, 0.0, 1.0]);
}

#[test]
fn bit_46_presses_code_38() {
    let text = format!("{}key:x=80,y=0,w=80,h=80,keycode=39\nkey:x=0,y=80,w=80,h=80,keycode=46\n", SAMPLE_CONFIG);
    let mut kb = parse_config(&text).unwrap().keyboard;
    let mut km = Keymap::new();
    let mut raw = [0u8; 32];
    raw[5] = 1 << 6;
    let drawn = tick(&mut kb, &mut km, &raw);
    assert_eq!(drawn, vec![0]);
    assert!(kb.keys[0].pressed);
    assert!(!kb.keys[1].pressed);
    assert!(!kb.keys[2].pressed);
    let drawn = tick(&mut kb, &mut km, &[0u8; 32]);
    assert!(drawn.is_empty());
    assert!(!kb.keys[0].pressed);
}

#[test]
fn missing_pressed_color() {
    let r = parse_config("background:r=0,g=0,b=0,a=255\nkey:x=0,y=0,w=80,h=80,keycode=38\n");
    assert!(matches!(r, Err(ConfigParseError::MissingPressed)));
}

#[test]
fn missing_background() {
    let r = parse_config("pressed:r=1,g=2,b=3,a=4\nkey:x=0,y=0,w=80,h=80,keycode=38");
    assert!(matches!(r, Err(ConfigParseError::MissingBackground)));
}

#[test]
fn no_keys() {
    let r = parse_config("pressed:r=1,g=2,b=3,a=4\nbackground:r=0,g=0,b=0,a=255\n");
    assert!(matches!(r, Err(ConfigParseError::NoKeys)));
}

#[test]
fn duplicate_colors() {
    let r = parse_config("pressed:r=1,g=2,b=3,a=4\npressed:r=1,g=2,b=3,a=4\n");
    assert!(matches!(r, Err(ConfigParseError::DuplicatePressed(1))));
    let r = parse_config("background:r=1,g=2,b=3,a=4\nkey:x=0,y=0,w=1,h=1,keycode=1\nbackground:r=1,g=2,b=3,a=4\n");
    assert!(matches!(r, Err(ConfigParseError::DuplicateBackground(2))));
}

#[test]
fn invalid_lines() {
    let bad = [
        "colour:r=1,g=2,b=3,a=4",
        "",
        "pressed:r=256,g=0,b=0,a=0",
        "pressed:r=1,g=2,b=3",
        "pressed:r=1,g=2,b=3,a=4,",
        "pressed:r=-1,g=2,b=3,a=4",
        "key:x=0,y=0,w=80,h=80,keycode=248",
        "key:x=0,y=0,w=80,h=80",
        "key:x=,y=0,w=80,h=80,keycode=1",
        "key:x=2147483648,y=0,w=80,h=80,keycode=1",
        "key:x=99999999999999999999,y=0,w=80,h=80,keycode=1",
    ];
    for line in bad.iter() {
        let text = format!("{}{}\nkey:x=0,y=0,w=8,h=8,keycode=1\n", SAMPLE_CONFIG, line);
        assert!(matches!(parse_config(&text), Err(ConfigParseError::InvalidLine(3))), "{}", line);
        assert_eq!(parse_line(line.as_bytes()), None);
    }
}

#[test]
fn line_values() {
    assert_eq!(
        parse_line(b"key:x=-2147483648,y=007,w=2147483647,h=0,keycode=247"),
        Some(Directive::Key(Rectangle::new(i32::MIN, 7, i32::MAX, 0), 247))
    );
    assert_eq!(parse_line(b"background:r=0,g=10,b=200,a=255"), Some(Directive::Background(Color(0, 10, 200, 255))));
    assert_eq!(parse_line(b"pressed:r=9,g=8,b=7,a=6"), Some(Directive::Pressed(Color(9, 8, 7, 6))));
}

#[test]
fn off_canvas_key_is_skipped() {
    let text = format!("{}key:x=100,y=0,w=80,h=80,keycode=40\nkey:x=80,y=80,w=80,h=80,keycode=41\n", SAMPLE_CONFIG);
    let cfg = parse_config(&text).unwrap();
    assert_eq!(cfg.skipped, vec![3]);
    assert_eq!(cfg.keyboard.keys.len(), 2);
    assert_eq!(cfg.keyboard.keys[1].keys, vec![41]);
    let only_bad = "pressed:r=1,g=2,b=3,a=4\nbackground:r=0,g=0,b=0,a=255\nkey:x=0,y=0,w=200,h=1,keycode=1\n";
    assert!(matches!(parse_config(only_bad), Err(ConfigParseError::NoKeys)));
}

#[test]
fn crlf_lines_are_accepted() {
    let text = SAMPLE_CONFIG.replace('\n', "\r\n");
    let cfg = parse_config(&text).unwrap();
    assert_eq!(cfg.keyboard.keys.len(), 1);
}

#[test]
fn scheduler_transitions() {
    assert_eq!(step(SchedulerState::Running, Event::FrameDue, 100), (SchedulerState::Running, Action::Draw { wake_at: 100 + FRAME_NS }));
    assert_eq!(step(SchedulerState::Running, Event::Other, 5), (SchedulerState::Running, Action::Wait { wake_at: 5 + 16_666_667 }));
    assert_eq!(step(SchedulerState::Running, Event::CloseRequested, 5), (SchedulerState::Terminating, Action::Exit));
    for e in [Event::FrameDue, Event::Other, Event::CloseRequested] {
        assert_eq!(step(SchedulerState::Terminating, e, 5), (SchedulerState::Terminating, Action::Exit));
    }
}

#[test]
fn deadline_saturates() {
    assert_eq!(next_deadline(0), 16_666_667);
    assert_eq!(next_deadline(u64::MAX - 1), u64::MAX);
}
