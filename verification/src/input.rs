//! Input: the host sets LEVELS, the movie is told EDGES.
//!
//! A level is what a button is during a frame; an edge is the event a movie
//! gets when a level is not what it was. The wire order of the buttons is the
//! order of the events, so two frames with the same levels are the same frame.
use vstd::prelude::*;

verus! {

/// A mouse button the movie can tell apart.
#[derive(Clone, Copy, PartialEq, Eq, Structural, Debug)]
pub enum MouseButton {
    Left,
    Middle,
    Right,
}

/// Where on the keyboard a key sits.
#[derive(Clone, Copy, PartialEq, Eq, Structural, Debug)]
pub enum KeyLocation {
    Standard,
    Left,
    Right,
    Numpad,
}

/// The code of a key by its place on the board.
#[derive(Clone, Copy, PartialEq, Eq, Structural, Debug)]
pub struct PhysicalKey(pub u16);

/// The code of a key that has a name and types nothing.
#[derive(Clone, Copy, PartialEq, Eq, Structural, Debug)]
pub struct NamedKey(pub u16);

/// What one button on the wire is.
#[derive(Clone, Copy, PartialEq, Eq, Structural, Debug)]
pub enum Btn {
    Mouse(MouseButton),
    /// A printable key: what it types bare, what it types shifted, where it is.
    Char(char, char, PhysicalKey),
    Named(NamedKey, PhysicalKey, KeyLocation),
    /// A printable key of the number pad, which shift does not change.
    NumChar(char, PhysicalKey),
}

/// What a key means.
#[derive(Clone, Copy, PartialEq, Eq, Structural, Debug)]
pub enum LogicalKey {
    Character(char),
    Named(NamedKey),
}

/// A key as an event carries it.
#[derive(Clone, Copy, PartialEq, Eq, Structural, Debug)]
pub struct KeyDescriptor {
    pub physical_key: PhysicalKey,
    pub logical_key: LogicalKey,
    pub key_location: KeyLocation,
}

/// What the movie is told.
#[derive(Clone, Copy, PartialEq, Eq, Structural, Debug)]
pub enum InputEvent {
    MouseMove { x: i32, y: i32 },
    /// `index` is the place of the click in a run of clicks. Counting clicks
    /// needs a wall clock, and there is none, so it is always the first.
    MouseDown { x: i32, y: i32, button: MouseButton, index: Option<usize> },
    MouseUp { x: i32, y: i32, button: MouseButton },
    KeyDown { key: KeyDescriptor },
    KeyUp { key: KeyDescriptor },
    TextInput { codepoint: char },
}

/// The buttons in wire order, the three of the mouse first, and which of them
/// are the shift keys.
pub struct InputTable {
    pub buttons: Vec<Btn>,
    pub shift_left: usize,
    pub shift_right: usize,
}

impl InputTable {
    /// The mouse's three places exist, and so do the shift keys.
    pub open spec fn well_formed(self) -> bool {
        &&& self.buttons@.len() >= 3
        &&& self.shift_left < self.buttons@.len()
        &&& self.shift_right < self.buttons@.len()
    }

    /// Either shift key is down.
    pub open spec fn shifted(self, levels: Seq<u8>) -> bool {
        levels[self.shift_left as int] != 0 || levels[self.shift_right as int] != 0
    }
}

/// The key that a printable or named button stands for, when shift is as given.
pub open spec fn key_of(btn: Btn, shift: bool) -> KeyDescriptor {
    match btn {
        Btn::Char(lo, hi, pk) => KeyDescriptor {
            physical_key: pk,
            logical_key: LogicalKey::Character(if shift { hi } else { lo }),
            key_location: KeyLocation::Standard,
        },
        Btn::Named(nk, pk, loc) => KeyDescriptor {
            physical_key: pk,
            logical_key: LogicalKey::Named(nk),
            key_location: loc,
        },
        Btn::NumChar(ch, pk) => KeyDescriptor {
            physical_key: pk,
            logical_key: LogicalKey::Character(ch),
            key_location: KeyLocation::Numpad,
        },
        Btn::Mouse(_) => arbitrary(),
    }
}

/// The events of one button going down or up: the edge itself, and after the
/// press of a printable key, when typing is on, the character it types.
pub open spec fn button_events(
    btn: Btn,
    down: bool,
    shift: bool,
    mouse: (i32, i32),
    typing: bool,
) -> Seq<InputEvent> {
    match btn {
        Btn::Mouse(button) => if down {
            seq![InputEvent::MouseDown { x: mouse.0, y: mouse.1, button, index: Some(0) }]
        } else {
            seq![InputEvent::MouseUp { x: mouse.0, y: mouse.1, button }]
        },
        _ => {
            let key = key_of(btn, shift);
            if !down {
                seq![InputEvent::KeyUp { key }]
            } else {
                match key.logical_key {
                    LogicalKey::Character(codepoint) if typing => seq![
                        InputEvent::KeyDown { key },
                        InputEvent::TextInput { codepoint },
                    ],
                    _ => seq![InputEvent::KeyDown { key }],
                }
            }
        },
    }
}

/// The events of the first `n` buttons, in wire order: those of the buttons
/// whose level changed, and no others.
pub open spec fn level_events(
    table: InputTable,
    levels: Seq<u8>,
    prev: Seq<u8>,
    mouse: (i32, i32),
    typing: bool,
    n: nat,
) -> Seq<InputEvent>
    decreases n,
{
    if n == 0 {
        Seq::empty()
    } else {
        let before = level_events(table, levels, prev, mouse, typing, (n - 1) as nat);
        if levels[n - 1] == prev[n - 1] {
            before
        } else {
            before + button_events(
                table.buttons@[n - 1],
                levels[n - 1] != 0,
                table.shifted(levels),
                mouse,
                typing,
            )
        }
    }
}

/// One of the mouse's own buttons changed.
pub open spec fn mouse_edge(levels: Seq<u8>, prev: Seq<u8>) -> bool {
    levels[0] != prev[0] || levels[1] != prev[1] || levels[2] != prev[2]
}

/// The pointer's own event. A move alone is a move. A move and a press in one
/// frame is a move first when the pointer is a person's, and only the press,
/// which carries the position, when it was recorded.
pub open spec fn pointer_events(
    levels: Seq<u8>,
    prev: Seq<u8>,
    mouse: (i32, i32),
    prev_mouse: (i32, i32),
    live_pointer: bool,
) -> Seq<InputEvent> {
    if mouse != prev_mouse && (!mouse_edge(levels, prev) || live_pointer) {
        seq![InputEvent::MouseMove { x: mouse.0, y: mouse.1 }]
    } else {
        Seq::empty()
    }
}

/// Everything a frame's change of levels tells the movie, in order.
pub open spec fn edge_events(
    table: InputTable,
    levels: Seq<u8>,
    prev: Seq<u8>,
    mouse: (i32, i32),
    prev_mouse: (i32, i32),
    live_pointer: bool,
    typing: bool,
) -> Seq<InputEvent> {
    pointer_events(levels, prev, mouse, prev_mouse, live_pointer) + level_events(
        table,
        levels,
        prev,
        mouse,
        typing,
        levels.len(),
    )
}

/// Tells `events` about one button whose level changed.
fn push_button(
    events: &mut Vec<InputEvent>,
    btn: Btn,
    down: bool,
    shift: bool,
    mouse: (i32, i32),
    typing: bool,
)
    ensures
        final(events)@ == old(events)@ + button_events(btn, down, shift, mouse, typing),
{
    match btn {
        Btn::Mouse(button) => {
            if down {
                events.push(InputEvent::MouseDown { x: mouse.0, y: mouse.1, button, index: Some(0) });
            } else {
                events.push(InputEvent::MouseUp { x: mouse.0, y: mouse.1, button });
            }
        },
        Btn::Char(lo, hi, pk) => {
            let codepoint: char = if shift { hi } else { lo };
            let key = KeyDescriptor {
                physical_key: pk,
                logical_key: LogicalKey::Character(codepoint),
                key_location: KeyLocation::Standard,
            };
            if down {
                events.push(InputEvent::KeyDown { key });
                if typing {
                    events.push(InputEvent::TextInput { codepoint });
                }
            } else {
                events.push(InputEvent::KeyUp { key });
            }
        },
        Btn::Named(nk, pk, loc) => {
            let key = KeyDescriptor {
                physical_key: pk,
                logical_key: LogicalKey::Named(nk),
                key_location: loc,
            };
            if down {
                events.push(InputEvent::KeyDown { key });
            } else {
                events.push(InputEvent::KeyUp { key });
            }
        },
        Btn::NumChar(codepoint, pk) => {
            let key = KeyDescriptor {
                physical_key: pk,
                logical_key: LogicalKey::Character(codepoint),
                key_location: KeyLocation::Numpad,
            };
            if down {
                events.push(InputEvent::KeyDown { key });
                if typing {
                    events.push(InputEvent::TextInput { codepoint });
                }
            } else {
                events.push(InputEvent::KeyUp { key });
            }
        },
    }
}

/// Turns the host's levels into the movie's edges, and takes the levels as seen.
pub fn inject_edges(
    table: &InputTable,
    buttons: &Vec<u8>,
    prev: &mut Vec<u8>,
    mouse: (i32, i32),
    prev_mouse: &mut (i32, i32),
    live_pointer: bool,
    text_input: bool,
) -> (events: Vec<InputEvent>)
    requires
        table.well_formed(),
        buttons@.len() == table.buttons@.len(),
        old(prev)@.len() == table.buttons@.len(),
    ensures
        events@ == edge_events(
            *table,
            buttons@,
            old(prev)@,
            mouse,
            *old(prev_mouse),
            live_pointer,
            text_input,
        ),
        final(prev)@ == buttons@,
        *final(prev_mouse) == mouse,
{
    let mut events: Vec<InputEvent> = Vec::new();
    let edge: bool = buttons[0] != prev[0] || buttons[1] != prev[1] || buttons[2] != prev[2];
    if mouse.0 != prev_mouse.0 || mouse.1 != prev_mouse.1 {
        if !edge || live_pointer {
            events.push(InputEvent::MouseMove { x: mouse.0, y: mouse.1 });
        }
        *prev_mouse = mouse;
    }
    let shift: bool = buttons[table.shift_left] != 0 || buttons[table.shift_right] != 0;
    let ghost was = old(prev)@;
    let ghost pointer = events@;
    let count: usize = buttons.len();
    for i in 0usize..count
        invariant
            table.well_formed(),
            count == buttons@.len(),
            buttons@.len() == table.buttons@.len(),
            was.len() == buttons@.len(),
            prev@.len() == buttons@.len(),
            prev@ == buttons@.take(i as int) + was.skip(i as int),
            shift == table.shifted(buttons@),
            events@ == pointer + level_events(
                *table,
                buttons@,
                was,
                mouse,
                text_input,
                i as nat,
            ),
    {
        assert(prev@[i as int] == was[i as int]);
        if buttons[i] != prev[i] {
            push_button(&mut events, table.buttons[i], buttons[i] != 0, shift, mouse, text_input);
            prev.set(i, buttons[i]);
        }
        assert(prev@ =~= buttons@.take(i + 1) + was.skip(i + 1));
    }
    assert(prev@ =~= buttons@);
    events
}

/// A press or a release, of a mouse button or of a key.
pub open spec fn is_edge(e: InputEvent) -> bool {
    e is MouseDown || e is MouseUp || e is KeyDown || e is KeyUp
}

/// How many of the first `n` buttons changed level.
pub open spec fn changed_levels(levels: Seq<u8>, prev: Seq<u8>, n: nat) -> nat
    decreases n,
{
    if n == 0 {
        0
    } else {
        changed_levels(levels, prev, (n - 1) as nat) + if levels[n - 1] != prev[n - 1] {
            1nat
        } else {
            0nat
        }
    }
}

/// How many of `events` are presses or releases.
pub open spec fn edge_count(events: Seq<InputEvent>) -> nat {
    events.filter(|e: InputEvent| is_edge(e)).len()
}

/// Levels that did not change say nothing: a frame that repeats the last one's
/// levels and pointer has no events.
pub proof fn steady_levels_are_silent(
    table: InputTable,
    levels: Seq<u8>,
    mouse: (i32, i32),
    live_pointer: bool,
    typing: bool,
)
    ensures
        edge_events(table, levels, levels, mouse, mouse, live_pointer, typing) == Seq::<
            InputEvent,
        >::empty(),
{
    steady_prefix(table, levels, mouse, typing, levels.len());
}

proof fn steady_prefix(
    table: InputTable,
    levels: Seq<u8>,
    mouse: (i32, i32),
    typing: bool,
    n: nat,
)
    ensures
        level_events(table, levels, levels, mouse, typing, n) == Seq::<InputEvent>::empty(),
    decreases n,
{
    if n > 0 {
        steady_prefix(table, levels, mouse, typing, (n - 1) as nat);
    }
}

/// A change of level becomes exactly one edge: a frame has as many presses and
/// releases as it has buttons whose level changed.
pub proof fn one_edge_per_change(
    table: InputTable,
    levels: Seq<u8>,
    prev: Seq<u8>,
    mouse: (i32, i32),
    prev_mouse: (i32, i32),
    live_pointer: bool,
    typing: bool,
)
    ensures
        edge_count(
            edge_events(table, levels, prev, mouse, prev_mouse, live_pointer, typing),
        ) == changed_levels(levels, prev, levels.len()),
{
    let pred = |e: InputEvent| is_edge(e);
    let head = pointer_events(levels, prev, mouse, prev_mouse, live_pointer);
    let tail = level_events(table, levels, prev, mouse, typing, levels.len());
    Seq::filter_distributes_over_add(head, tail, pred);
    edge_prefix(table, levels, prev, mouse, typing, levels.len());
    reveal_with_fuel(Seq::filter, 2);
    assert(head.filter(pred) =~= Seq::<InputEvent>::empty()) by {
        if head.len() == 1 {
            assert(head.drop_last() =~= Seq::<InputEvent>::empty());
        }
    }
}

proof fn edge_prefix(
    table: InputTable,
    levels: Seq<u8>,
    prev: Seq<u8>,
    mouse: (i32, i32),
    typing: bool,
    n: nat,
)
    ensures
        edge_count(level_events(table, levels, prev, mouse, typing, n)) == changed_levels(
            levels,
            prev,
            n,
        ),
    decreases n,
{
    let pred = |e: InputEvent| is_edge(e);
    reveal_with_fuel(Seq::filter, 3);
    if n > 0 {
        edge_prefix(table, levels, prev, mouse, typing, (n - 1) as nat);
        if levels[n - 1] != prev[n - 1] {
            let before = level_events(table, levels, prev, mouse, typing, (n - 1) as nat);
            let own = button_events(
                table.buttons@[n - 1],
                levels[n - 1] != 0,
                table.shifted(levels),
                mouse,
                typing,
            );
            Seq::filter_distributes_over_add(before, own, pred);
            if own.len() == 2 {
                assert(own.drop_last() =~= seq![own[0]]);
                assert(own.drop_last().drop_last() =~= Seq::<InputEvent>::empty());
            } else {
                assert(own.drop_last() =~= Seq::<InputEvent>::empty());
            }
            assert(own.filter(pred).len() == 1);
        }
    }
}

/// A move is reported at most once, ahead of everything else, and only where
/// the pointer is now.
pub proof fn move_comes_first(
    table: InputTable,
    levels: Seq<u8>,
    prev: Seq<u8>,
    mouse: (i32, i32),
    prev_mouse: (i32, i32),
    live_pointer: bool,
    typing: bool,
)
    ensures
        forall|i: int|
            0 <= i < edge_events(table, levels, prev, mouse, prev_mouse, live_pointer, typing).len()
                ==> (#[trigger] edge_events(
                table,
                levels,
                prev,
                mouse,
                prev_mouse,
                live_pointer,
                typing,
            )[i] is MouseMove ==> i == 0 && edge_events(
                table,
                levels,
                prev,
                mouse,
                prev_mouse,
                live_pointer,
                typing,
            )[i] == (InputEvent::MouseMove { x: mouse.0, y: mouse.1 })),
{
    prefix_shape(table, levels, prev, mouse, typing, levels.len());
}

/// A person's pointer is seen to travel before it presses: where it moved, the
/// first event of the frame is the move.
pub proof fn live_pointer_moves_before_it_presses(
    table: InputTable,
    levels: Seq<u8>,
    prev: Seq<u8>,
    mouse: (i32, i32),
    prev_mouse: (i32, i32),
    typing: bool,
)
    requires
        mouse != prev_mouse,
    ensures
        edge_events(table, levels, prev, mouse, prev_mouse, true, typing).len() > 0,
        edge_events(table, levels, prev, mouse, prev_mouse, true, typing)[0] == (
        InputEvent::MouseMove { x: mouse.0, y: mouse.1 }),
{
}

/// A recorded pointer that presses or releases in a frame is given no move in
/// it: the press carries the position.
pub proof fn recorded_press_has_no_move(
    table: InputTable,
    levels: Seq<u8>,
    prev: Seq<u8>,
    mouse: (i32, i32),
    prev_mouse: (i32, i32),
    typing: bool,
)
    requires
        mouse_edge(levels, prev),
    ensures
        forall|i: int|
            0 <= i < edge_events(table, levels, prev, mouse, prev_mouse, false, typing).len() ==> !(
            #[trigger] edge_events(table, levels, prev, mouse, prev_mouse, false, typing)[i] is MouseMove),
{
    prefix_shape(table, levels, prev, mouse, typing, levels.len());
}

/// Every press and release of a mouse button carries the frame's pointer.
pub open spec fn carries_pointer(e: InputEvent, mouse: (i32, i32)) -> bool {
    match e {
        InputEvent::MouseDown { x, y, .. } => x == mouse.0 && y == mouse.1,
        InputEvent::MouseUp { x, y, .. } => x == mouse.0 && y == mouse.1,
        _ => true,
    }
}

/// The character typed at `i`, if one is, is what the key pressed just before
/// it means.
pub open spec fn typed_by_press(events: Seq<InputEvent>, i: int) -> bool {
    match events[i] {
        InputEvent::TextInput { codepoint } => i > 0 && (match events[i - 1] {
            InputEvent::KeyDown { key } => key.logical_key == LogicalKey::Character(codepoint),
            _ => false,
        }),
        _ => true,
    }
}

/// Mouse buttons are reported where the pointer is in this frame.
pub proof fn clicks_carry_the_pointer(
    table: InputTable,
    levels: Seq<u8>,
    prev: Seq<u8>,
    mouse: (i32, i32),
    prev_mouse: (i32, i32),
    live_pointer: bool,
    typing: bool,
)
    ensures
        forall|i: int|
            0 <= i < edge_events(table, levels, prev, mouse, prev_mouse, live_pointer, typing).len()
                ==> carries_pointer(
                #[trigger] edge_events(
                    table,
                    levels,
                    prev,
                    mouse,
                    prev_mouse,
                    live_pointer,
                    typing,
                )[i],
                mouse,
            ),
{
    prefix_shape(table, levels, prev, mouse, typing, levels.len());
}

/// Typing follows pressing: a character is only ever typed right after the
/// press of the key that means it, and never when typing is off.
pub proof fn typing_follows_presses(
    table: InputTable,
    levels: Seq<u8>,
    prev: Seq<u8>,
    mouse: (i32, i32),
    prev_mouse: (i32, i32),
    live_pointer: bool,
    typing: bool,
)
    ensures
        forall|i: int|
            0 <= i < edge_events(table, levels, prev, mouse, prev_mouse, live_pointer, typing).len()
                ==> {
                &&& #[trigger] typed_by_press(
                    edge_events(table, levels, prev, mouse, prev_mouse, live_pointer, typing),
                    i,
                )
                &&& edge_events(
                    table,
                    levels,
                    prev,
                    mouse,
                    prev_mouse,
                    live_pointer,
                    typing,
                )[i] is TextInput ==> typing
            },
{
    let head = pointer_events(levels, prev, mouse, prev_mouse, live_pointer);
    let tail = level_events(table, levels, prev, mouse, typing, levels.len());
    prefix_shape(table, levels, prev, mouse, typing, levels.len());
    assert forall|i: int| 0 <= i < (head + tail).len() implies #[trigger] typed_by_press(
        head + tail,
        i,
    ) by {
        if i >= head.len() {
            assert(typed_by_press(tail, i - head.len()));
        }
    }
}

proof fn prefix_shape(
    table: InputTable,
    levels: Seq<u8>,
    prev: Seq<u8>,
    mouse: (i32, i32),
    typing: bool,
    n: nat,
)
    ensures
        ({
            let events = level_events(table, levels, prev, mouse, typing, n);
            forall|i: int|
                0 <= i < events.len() ==> {
                    &&& !(#[trigger] events[i] is MouseMove)
                    &&& carries_pointer(events[i], mouse)
                    &&& typed_by_press(events, i)
                    &&& (events[i] is TextInput ==> typing)
                }
        }),
    decreases n,
{
    if n > 0 {
        prefix_shape(table, levels, prev, mouse, typing, (n - 1) as nat);
        if levels[n - 1] != prev[n - 1] {
            let before = level_events(table, levels, prev, mouse, typing, (n - 1) as nat);
            let own = button_events(
                table.buttons@[n - 1],
                levels[n - 1] != 0,
                table.shifted(levels),
                mouse,
                typing,
            );
            let events = before + own;
            assert forall|i: int| 0 <= i < events.len() implies {
                &&& !(#[trigger] events[i] is MouseMove)
                &&& carries_pointer(events[i], mouse)
                &&& typed_by_press(events, i)
                &&& (events[i] is TextInput ==> typing)
            } by {
                if i < before.len() {
                    assert(events[i] == before[i]);
                    assert(typed_by_press(before, i));
                    if i > 0 {
                        assert(events[i - 1] == before[i - 1]);
                    }
                } else {
                    assert(events[i] == own[i - before.len()]);
                }
            }
        }
    }
}

proof fn one_change(
    table: InputTable,
    levels: Seq<u8>,
    prev: Seq<u8>,
    mouse: (i32, i32),
    typing: bool,
    i: int,
    n: nat,
)
    requires
        0 <= i < levels.len(),
        n <= levels.len(),
        levels.len() == prev.len(),
        levels[i] != prev[i],
        forall|j: int| 0 <= j < levels.len() && j != i ==> levels[j] == prev[j],
    ensures
        level_events(table, levels, prev, mouse, typing, n) == if i < n {
            button_events(
                table.buttons@[i],
                levels[i] != 0,
                table.shifted(levels),
                mouse,
                typing,
            )
        } else {
            Seq::empty()
        },
    decreases n,
{
    if n > 0 {
        one_change(table, levels, prev, mouse, typing, i, (n - 1) as nat);
        if n - 1 == i {
            assert(Seq::<InputEvent>::empty() + button_events(
                table.buttons@[i],
                levels[i] != 0,
                table.shifted(levels),
                mouse,
                typing,
            ) =~= button_events(
                table.buttons@[i],
                levels[i] != 0,
                table.shifted(levels),
                mouse,
                typing,
            ));
        }
    }
}

/// A mouse button that alone changed is one event: a press, counted as the first
/// click, where its level is now not zero, and a release where it is zero, of
/// that button and where the pointer is.
pub proof fn a_mouse_button_alone(
    table: InputTable,
    levels: Seq<u8>,
    prev: Seq<u8>,
    mouse: (i32, i32),
    live_pointer: bool,
    typing: bool,
    i: int,
    button: MouseButton,
)
    requires
        0 <= i < levels.len(),
        levels.len() == prev.len(),
        levels[i] != prev[i],
        forall|j: int| 0 <= j < levels.len() && j != i ==> levels[j] == prev[j],
        table.buttons@[i] == Btn::Mouse(button),
    ensures
        levels[i] != 0 ==> edge_events(table, levels, prev, mouse, mouse, live_pointer, typing)
            == seq![InputEvent::MouseDown { x: mouse.0, y: mouse.1, button, index: Some(0usize) }],
        levels[i] == 0 ==> edge_events(table, levels, prev, mouse, mouse, live_pointer, typing)
            == seq![InputEvent::MouseUp { x: mouse.0, y: mouse.1, button }],
{
    one_change(table, levels, prev, mouse, typing, i, levels.len());
    assert(edge_events(table, levels, prev, mouse, mouse, live_pointer, typing) =~= level_events(
        table,
        levels,
        prev,
        mouse,
        typing,
        levels.len(),
    ));
}

/// A printable key that alone changed means the character that shift, either of
/// the two, makes it mean now. It is pressed where its level is now not zero,
/// and then types that character when typing is on; it is released, and types
/// nothing, where its level is zero.
pub proof fn a_printable_key_alone(
    table: InputTable,
    levels: Seq<u8>,
    prev: Seq<u8>,
    mouse: (i32, i32),
    live_pointer: bool,
    typing: bool,
    i: int,
    lo: char,
    hi: char,
    pk: PhysicalKey,
)
    requires
        0 <= i < levels.len(),
        levels.len() == prev.len(),
        levels[i] != prev[i],
        forall|j: int| 0 <= j < levels.len() && j != i ==> levels[j] == prev[j],
        table.buttons@[i] == Btn::Char(lo, hi, pk),
    ensures
        ({
            let shift = levels[table.shift_left as int] != 0 || levels[table.shift_right as int]
                != 0;
            let codepoint = if shift {
                hi
            } else {
                lo
            };
            let key = KeyDescriptor {
                physical_key: pk,
                logical_key: LogicalKey::Character(codepoint),
                key_location: KeyLocation::Standard,
            };
            edge_events(table, levels, prev, mouse, mouse, live_pointer, typing) == if levels[i]
                == 0 {
                seq![InputEvent::KeyUp { key }]
            } else if typing {
                seq![InputEvent::KeyDown { key }, InputEvent::TextInput { codepoint }]
            } else {
                seq![InputEvent::KeyDown { key }]
            }
        }),
{
    one_change(table, levels, prev, mouse, typing, i, levels.len());
    assert(edge_events(table, levels, prev, mouse, mouse, live_pointer, typing) =~= level_events(
        table,
        levels,
        prev,
        mouse,
        typing,
        levels.len(),
    ));
}

/// A key of the number pad that alone changed does the same, and shift does not
/// change what it means.
pub proof fn a_number_pad_key_alone(
    table: InputTable,
    levels: Seq<u8>,
    prev: Seq<u8>,
    mouse: (i32, i32),
    live_pointer: bool,
    typing: bool,
    i: int,
    codepoint: char,
    pk: PhysicalKey,
)
    requires
        0 <= i < levels.len(),
        levels.len() == prev.len(),
        levels[i] != prev[i],
        forall|j: int| 0 <= j < levels.len() && j != i ==> levels[j] == prev[j],
        table.buttons@[i] == Btn::NumChar(codepoint, pk),
    ensures
        ({
            let key = KeyDescriptor {
                physical_key: pk,
                logical_key: LogicalKey::Character(codepoint),
                key_location: KeyLocation::Numpad,
            };
            edge_events(table, levels, prev, mouse, mouse, live_pointer, typing) == if levels[i]
                == 0 {
                seq![InputEvent::KeyUp { key }]
            } else if typing {
                seq![InputEvent::KeyDown { key }, InputEvent::TextInput { codepoint }]
            } else {
                seq![InputEvent::KeyDown { key }]
            }
        }),
{
    one_change(table, levels, prev, mouse, typing, i, levels.len());
    assert(edge_events(table, levels, prev, mouse, mouse, live_pointer, typing) =~= level_events(
        table,
        levels,
        prev,
        mouse,
        typing,
        levels.len(),
    ));
}

/// A named key that alone changed is pressed where its level is now not zero and
/// released where it is zero, with its own name, place and location, wherever on
/// the board it sits. It never types.
pub proof fn a_named_key_alone(
    table: InputTable,
    levels: Seq<u8>,
    prev: Seq<u8>,
    mouse: (i32, i32),
    live_pointer: bool,
    typing: bool,
    i: int,
    nk: NamedKey,
    pk: PhysicalKey,
    loc: KeyLocation,
)
    requires
        0 <= i < levels.len(),
        levels.len() == prev.len(),
        levels[i] != prev[i],
        forall|j: int| 0 <= j < levels.len() && j != i ==> levels[j] == prev[j],
        table.buttons@[i] == Btn::Named(nk, pk, loc),
    ensures
        ({
            let key = KeyDescriptor {
                physical_key: pk,
                logical_key: LogicalKey::Named(nk),
                key_location: loc,
            };
            edge_events(table, levels, prev, mouse, mouse, live_pointer, typing) == if levels[i]
                == 0 {
                seq![InputEvent::KeyUp { key }]
            } else {
                seq![InputEvent::KeyDown { key }]
            }
        }),
{
    one_change(table, levels, prev, mouse, typing, i, levels.len());
    assert(edge_events(table, levels, prev, mouse, mouse, live_pointer, typing) =~= level_events(
        table,
        levels,
        prev,
        mouse,
        typing,
        levels.len(),
    ));
}

proof fn split_levels(
    table: InputTable,
    levels: Seq<u8>,
    prev: Seq<u8>,
    mouse: (i32, i32),
    typing: bool,
    k: int,
    n: nat,
)
    requires
        levels.len() == prev.len(),
        0 <= k <= levels.len(),
        n <= levels.len(),
    ensures
        level_events(table, levels, prev, mouse, typing, n) == level_events(
            table,
            levels,
            prev.take(k) + levels.skip(k),
            mouse,
            typing,
            n,
        ) + level_events(table, levels, levels.take(k) + prev.skip(k), mouse, typing, n),
        n <= k ==> level_events(
            table,
            levels,
            levels.take(k) + prev.skip(k),
            mouse,
            typing,
            n,
        ).len() == 0,
    decreases n,
{
    if n > 0 {
        split_levels(table, levels, prev, mouse, typing, k, (n - 1) as nat);
        let first = prev.take(k) + levels.skip(k);
        let rest = levels.take(k) + prev.skip(k);
        if n - 1 < k {
            assert(first[n - 1] == prev[n - 1] && rest[n - 1] == levels[n - 1]);
        } else {
            assert(first[n - 1] == levels[n - 1] && rest[n - 1] == prev[n - 1]);
        }
        assert(level_events(table, levels, prev, mouse, typing, n) =~= level_events(
            table,
            levels,
            first,
            mouse,
            typing,
            n,
        ) + level_events(table, levels, rest, mouse, typing, n));
    } else {
        assert(level_events(table, levels, prev, mouse, typing, n) =~= level_events(
            table,
            levels,
            prev.take(k) + levels.skip(k),
            mouse,
            typing,
            n,
        ) + level_events(table, levels, levels.take(k) + prev.skip(k), mouse, typing, n));
    }
}

/// Buttons speak for themselves and in wire order: what a change of levels says
/// is what the buttons before any place would say alone, and then what those
/// from there on would.
pub proof fn buttons_speak_in_wire_order(
    table: InputTable,
    levels: Seq<u8>,
    prev: Seq<u8>,
    mouse: (i32, i32),
    live_pointer: bool,
    typing: bool,
    k: int,
)
    requires
        levels.len() == prev.len(),
        0 <= k <= levels.len(),
    ensures
        edge_events(table, levels, prev, mouse, mouse, live_pointer, typing) == edge_events(
            table,
            levels,
            prev.take(k) + levels.skip(k),
            mouse,
            mouse,
            live_pointer,
            typing,
        ) + edge_events(
            table,
            levels,
            levels.take(k) + prev.skip(k),
            mouse,
            mouse,
            live_pointer,
            typing,
        ),
{
    split_levels(table, levels, prev, mouse, typing, k, levels.len());
    assert(edge_events(table, levels, prev, mouse, mouse, live_pointer, typing) =~= edge_events(
        table,
        levels,
        prev.take(k) + levels.skip(k),
        mouse,
        mouse,
        live_pointer,
        typing,
    ) + edge_events(
        table,
        levels,
        levels.take(k) + prev.skip(k),
        mouse,
        mouse,
        live_pointer,
        typing,
    ));
}

/// A pointer that moved says so ahead of the buttons, once and where it is now,
/// unless it was recorded and one of the first three buttons changed with it. But
/// for that a move changes nothing that the buttons say.
pub proof fn a_pointer_move_is_told_first(
    table: InputTable,
    levels: Seq<u8>,
    prev: Seq<u8>,
    mouse: (i32, i32),
    prev_mouse: (i32, i32),
    live_pointer: bool,
    typing: bool,
)
    requires
        levels.len() == prev.len(),
        levels.len() >= 3,
    ensures
        ({
            let clicked = levels[0] != prev[0] || levels[1] != prev[1] || levels[2] != prev[2];
            let steady = edge_events(table, levels, prev, mouse, mouse, live_pointer, typing);
            edge_events(table, levels, prev, mouse, prev_mouse, live_pointer, typing) == if mouse
                != prev_mouse && (live_pointer || !clicked) {
                seq![InputEvent::MouseMove { x: mouse.0, y: mouse.1 }] + steady
            } else {
                steady
            }
        }),
{
    let steady = edge_events(table, levels, prev, mouse, mouse, live_pointer, typing);
    let tail = level_events(table, levels, prev, mouse, typing, levels.len());
    assert(steady =~= tail);
    assert(edge_events(table, levels, prev, mouse, prev_mouse, live_pointer, typing)
        =~= pointer_events(levels, prev, mouse, prev_mouse, live_pointer) + steady);
    assert(Seq::<InputEvent>::empty() + steady =~= steady);
}

} // verus!
