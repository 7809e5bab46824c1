use chimera_ruffle::input::{
    inject_edges, Btn, InputEvent, InputTable, KeyDescriptor, KeyLocation, LogicalKey, MouseButton,
    NamedKey, PhysicalKey,
};

const A: usize = 3;
const PAD_SEVEN: usize = 4;
const SHIFT: usize = 5;
const OTHER_SHIFT: usize = 6;

fn table() -> InputTable {
    InputTable {
        buttons: vec![
            Btn::Mouse(MouseButton::Left),
            Btn::Mouse(MouseButton::Right),
            Btn::Mouse(MouseButton::Middle),
            Btn::Char('a', 'A', PhysicalKey(10)),
            Btn::NumChar('7', PhysicalKey(20)),
            Btn::Named(NamedKey(1), PhysicalKey(30), KeyLocation::Left),
            Btn::Named(NamedKey(1), PhysicalKey(31), KeyLocation::Right),
        ],
        shift_left: SHIFT,
        shift_right: OTHER_SHIFT,
    }
}

/// A host's view of the input, and what the movie was last told.
struct Pad {
    table: InputTable,
    levels: Vec<u8>,
    told: Vec<u8>,
    told_mouse: (i32, i32),
}

impl Pad {
    fn new() -> Pad {
        let table = table();
        let n = table.buttons.len();
        Pad { table, levels: vec![0; n], told: vec![0; n], told_mouse: (0, 0) }
    }

    fn frame(&mut self, mouse: (i32, i32), live: bool, typing: bool) -> Vec<InputEvent> {
        inject_edges(
            &self.table,
            &self.levels,
            &mut self.told,
            mouse,
            &mut self.told_mouse,
            live,
            typing,
        )
    }
}

fn letter(c: char) -> KeyDescriptor {
    KeyDescriptor {
        physical_key: PhysicalKey(10),
        logical_key: LogicalKey::Character(c),
        key_location: KeyLocation::Standard,
    }
}

#[test]
fn repeated_levels_say_nothing() {
    let mut pad = Pad::new();
    pad.levels[A] = 1;
    assert_eq!(pad.frame((5, 5), true, true).len(), 3);
    assert_eq!(pad.frame((5, 5), true, true), Vec::new());
}

#[test]
fn move_alone_is_a_move() {
    let mut pad = Pad::new();
    assert_eq!(pad.frame((3, 4), false, true), vec![InputEvent::MouseMove { x: 3, y: 4 }]);
    assert_eq!(pad.told_mouse, (3, 4));
}

#[test]
fn live_pointer_moves_then_presses() {
    let mut pad = Pad::new();
    pad.levels[0] = 1;
    assert_eq!(
        pad.frame((3, 4), true, true),
        vec![
            InputEvent::MouseMove { x: 3, y: 4 },
            InputEvent::MouseDown { x: 3, y: 4, button: MouseButton::Left, index: Some(0) },
        ]
    );
}

#[test]
fn recorded_pointer_only_presses() {
    let mut pad = Pad::new();
    pad.levels[1] = 1;
    assert_eq!(
        pad.frame((3, 4), false, true),
        vec![InputEvent::MouseDown { x: 3, y: 4, button: MouseButton::Right, index: Some(0) }]
    );
    assert_eq!(pad.told_mouse, (3, 4));
    pad.levels[1] = 0;
    assert_eq!(
        pad.frame((3, 4), false, true),
        vec![InputEvent::MouseUp { x: 3, y: 4, button: MouseButton::Right }]
    );
}

#[test]
fn recorded_pointer_moves_with_a_key() {
    let mut pad = Pad::new();
    pad.levels[A] = 1;
    assert_eq!(
        pad.frame((1, 1), false, false),
        vec![InputEvent::MouseMove { x: 1, y: 1 }, InputEvent::KeyDown { key: letter('a') }]
    );
}

#[test]
fn printable_key_types_its_character() {
    let mut pad = Pad::new();
    pad.levels[A] = 1;
    assert_eq!(
        pad.frame((0, 0), false, true),
        vec![InputEvent::KeyDown { key: letter('a') }, InputEvent::TextInput { codepoint: 'a' }]
    );
    pad.levels[A] = 0;
    assert_eq!(pad.frame((0, 0), false, true), vec![InputEvent::KeyUp { key: letter('a') }]);
}

#[test]
fn typing_can_be_turned_off() {
    let mut pad = Pad::new();
    pad.levels[A] = 1;
    pad.levels[PAD_SEVEN] = 1;
    assert_eq!(pad.frame((0, 0), false, false).len(), 2);
}

#[test]
fn either_shift_changes_the_letter() {
    for shift in [SHIFT, OTHER_SHIFT] {
        let mut pad = Pad::new();
        pad.levels[shift] = 1;
        pad.levels[A] = 1;
        let events = pad.frame((0, 0), false, true);
        assert_eq!(events[0], InputEvent::KeyDown { key: letter('A') });
        assert_eq!(events[1], InputEvent::TextInput { codepoint: 'A' });
        assert_eq!(events.len(), 3);
    }
}

#[test]
fn shift_leaves_the_number_pad_alone() {
    let mut pad = Pad::new();
    pad.levels[SHIFT] = 1;
    pad.levels[PAD_SEVEN] = 1;
    let key = KeyDescriptor {
        physical_key: PhysicalKey(20),
        logical_key: LogicalKey::Character('7'),
        key_location: KeyLocation::Numpad,
    };
    let shift = KeyDescriptor {
        physical_key: PhysicalKey(30),
        logical_key: LogicalKey::Named(NamedKey(1)),
        key_location: KeyLocation::Left,
    };
    assert_eq!(
        pad.frame((0, 0), false, true),
        vec![
            InputEvent::KeyDown { key },
            InputEvent::TextInput { codepoint: '7' },
            InputEvent::KeyDown { key: shift },
        ]
    );
    pad.levels[SHIFT] = 0;
    assert_eq!(pad.frame((0, 0), false, true), vec![InputEvent::KeyUp { key: shift }]);
}

#[test]
fn events_come_in_wire_order() {
    let mut pad = Pad::new();
    for level in pad.levels.iter_mut() {
        *level = 1;
    }
    let events = pad.frame((9, 9), true, true);
    assert!(matches!(events[0], InputEvent::MouseMove { x: 9, y: 9 }));
    assert!(matches!(events[1], InputEvent::MouseDown { button: MouseButton::Left, .. }));
    assert!(matches!(events[2], InputEvent::MouseDown { button: MouseButton::Right, .. }));
    assert!(matches!(events[3], InputEvent::MouseDown { button: MouseButton::Middle, .. }));
    assert!(matches!(events[4], InputEvent::KeyDown { .. }));
    assert!(matches!(events[5], InputEvent::TextInput { codepoint: 'A' }));
    assert_eq!(events.len(), 10);
    let edges = events
        .iter()
        .filter(|e| !matches!(e, InputEvent::MouseMove { .. } | InputEvent::TextInput { .. }))
        .count();
    assert_eq!(edges, pad.levels.len());
}
