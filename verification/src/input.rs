//! Buttons, keys and the scripted start of the game.

use vstd::prelude::*;
use crate::bits;
use crate::bus;
use crate::bus::BusModel;
use crate::nes::{Nes, NesModel};

verus! {

pub const BTN_A: u8 = 0;

pub const BTN_B: u8 = 1;

pub const BTN_SELECT: u8 = 2;

pub const BTN_START: u8 = 3;

pub const BTN_UP: u8 = 4;

pub const BTN_DOWN: u8 = 5;

pub const BTN_LEFT: u8 = 6;

pub const BTN_RIGHT: u8 = 7;

/// The frame after which the script hands over to the player.
pub const SCRIPT_END: u32 = 900;

/// Buttons of the code that gives 30 lives, and Start.
pub const KONAMI: [u8; 11] = [4, 4, 5, 5, 6, 7, 6, 7, 1, 0, 3];

/// A button is pressed or released in a frame.
#[derive(Clone, Copy, PartialEq, Eq, Debug)]
pub struct InputEvent {
    pub frame: u32,
    pub button: u8,
    pub pressed: bool,
}

/// The script's events in the order in which they are planned: the code from frame 250
/// on, each button held for 4 frames of 10; Right held from frame 560 on; then 500
/// times a jump and a shot, every 45 frames.
pub open spec fn planned_event(n: int) -> InputEvent {
    if n < 22 {
        InputEvent {
            frame: (250 + n / 2 * 10 + n % 2 * 4) as u32,
            button: KONAMI[n / 2],
            pressed: n % 2 == 0,
        }
    } else if n == 22 {
        InputEvent { frame: 560, button: BTN_RIGHT, pressed: true }
    } else {
        let t = 610 + (n - 23) / 4 * 45;
        let k = (n - 23) % 4;
        if k == 0 {
            InputEvent { frame: t as u32, button: BTN_A, pressed: true }
        } else if k == 1 {
            InputEvent { frame: (t + 8) as u32, button: BTN_A, pressed: false }
        } else if k == 2 {
            InputEvent { frame: (t + 3) as u32, button: BTN_B, pressed: true }
        } else {
            InputEvent { frame: (t + 7) as u32, button: BTN_B, pressed: false }
        }
    }
}

/// The first `n` planned events.
pub open spec fn planned(n: nat) -> Seq<InputEvent> {
    Seq::new(n, |i: int| planned_event(i))
}

/// The place of an event in a sorted list: after all events of its frame.
pub open spec fn place(seq: Seq<InputEvent>, frame: u32) -> int
    decreases seq.len(),
{
    if seq.len() == 0 || seq.last().frame <= frame {
        seq.len() as int
    } else {
        place(seq.drop_last(), frame)
    }
}

/// Events sorted by frame; events of one frame stay in order.
pub open spec fn sorted_events(events: Seq<InputEvent>) -> Seq<InputEvent>
    decreases events.len(),
{
    if events.len() == 0 {
        events
    } else {
        let rest = sorted_events(events.drop_last());
        rest.insert(place(rest, events.last().frame), events.last())
    }
}

/// Frames never decrease.
pub open spec fn in_order(seq: Seq<InputEvent>) -> bool {
    forall|i: int, j: int| 0 <= i <= j < seq.len() ==> seq[i].frame <= seq[j].frame
}

/// The events of one frame.
pub open spec fn of_frame(seq: Seq<InputEvent>, frame: u32) -> Seq<InputEvent> {
    seq.filter(|e: InputEvent| e.frame == frame)
}

proof fn lemma_place(seq: Seq<InputEvent>, frame: u32)
    requires
        in_order(seq),
    ensures
        0 <= place(seq, frame) <= seq.len(),
        forall|i: int| 0 <= i < place(seq, frame) ==> #[trigger] seq[i].frame <= frame,
        forall|i: int| place(seq, frame) <= i < seq.len() ==> #[trigger] seq[i].frame > frame,
    decreases seq.len(),
{
    if seq.len() > 0 && seq.last().frame > frame {
        lemma_place(seq.drop_last(), frame);
        assert forall|i: int| 0 <= i < place(seq, frame) implies #[trigger] seq[i].frame
            <= frame by {
            assert(seq.drop_last()[i].frame <= frame);
        }
        assert forall|i: int| place(seq, frame) <= i < seq.len() implies #[trigger] seq[i].frame
            > frame by {
            if i < seq.len() - 1 {
                assert(seq.drop_last()[i].frame > frame);
            }
        }
    }
}

/// Sorting puts the frames in order.
pub proof fn sorting_orders(events: Seq<InputEvent>)
    ensures
        in_order(sorted_events(events)),
        sorted_events(events).len() == events.len(),
    decreases events.len(),
{
    if events.len() > 0 {
        sorting_orders(events.drop_last());
        lemma_place(sorted_events(events.drop_last()), events.last().frame);
    }
}

proof fn lemma_filter_none(seq: Seq<InputEvent>, frame: u32)
    requires
        forall|i: int| 0 <= i < seq.len() ==> #[trigger] seq[i].frame != frame,
    ensures
        of_frame(seq, frame) == Seq::<InputEvent>::empty(),
    decreases seq.len(),
{
    reveal(Seq::filter);
    if seq.len() > 0 {
        lemma_filter_none(seq.drop_last(), frame);
    }
}

/// Sorting keeps every event, and the events of one frame stay in order.
pub proof fn sorting_is_stable(events: Seq<InputEvent>, frame: u32)
    ensures
        of_frame(sorted_events(events), frame) == of_frame(events, frame),
    decreases events.len(),
{
    reveal(Seq::filter);
    if events.len() > 0 {
        let e = events.last();
        let rest = sorted_events(events.drop_last());
        sorting_is_stable(events.drop_last(), frame);
        sorting_orders(events.drop_last());
        lemma_place(rest, e.frame);
        let k = place(rest, e.frame);
        let keep = |x: InputEvent| x.frame == frame;
        let low = rest.take(k);
        let high = rest.skip(k);
        assert(rest =~= low + high);
        assert(rest.insert(k, e) =~= low.push(e) + high);
        Seq::filter_distributes_over_add(low, high, keep);
        Seq::filter_distributes_over_add(low.push(e), high, keep);
        assert(low.push(e).drop_last() =~= low);
        if e.frame == frame {
            lemma_filter_none(high, frame);
        }
    }
}

/// Planned event `n`.
fn plan_event(n: usize) -> (e: InputEvent)
    requires
        n < 2023,
    ensures
        e == planned_event(n as int),
        e.button < 8,
{
    if n < 22 {
        let button: u8 = KONAMI[n / 2];
        assert(KONAMI[0] < 8 && KONAMI[1] < 8 && KONAMI[2] < 8 && KONAMI[3] < 8 && KONAMI[4] < 8
            && KONAMI[5] < 8 && KONAMI[6] < 8 && KONAMI[7] < 8 && KONAMI[8] < 8 && KONAMI[9] < 8
            && KONAMI[10] < 8);
        InputEvent {
            frame: 250 + (n / 2) as u32 * 10 + (n % 2) as u32 * 4,
            button,
            pressed: n % 2 == 0,
        }
    } else if n == 22 {
        InputEvent { frame: 560, button: BTN_RIGHT, pressed: true }
    } else {
        let t: u32 = 610 + ((n - 23) / 4) as u32 * 45;
        let k: usize = (n - 23) % 4;
        if k == 0 {
            InputEvent { frame: t, button: BTN_A, pressed: true }
        } else if k == 1 {
            InputEvent { frame: t + 8, button: BTN_A, pressed: false }
        } else if k == 2 {
            InputEvent { frame: t + 3, button: BTN_B, pressed: true }
        } else {
            InputEvent { frame: t + 7, button: BTN_B, pressed: false }
        }
    }
}

/// All buttons exist.
pub open spec fn valid_events(seq: Seq<InputEvent>) -> bool {
    forall|i: int| 0 <= i < seq.len() ==> (#[trigger] seq[i]).button < 8
}

/// Inserts an event into a sorted list.
fn insert_event(seq: &mut Vec<InputEvent>, e: InputEvent)
    ensures
        final(seq)@ == old(seq)@.insert(place(old(seq)@, e.frame), e),
        0 <= place(old(seq)@, e.frame) <= old(seq)@.len(),
{
    let mut at: usize = seq.len();
    assert(seq@.take(at as int) =~= seq@);
    while at > 0 && seq[at - 1].frame > e.frame
        invariant
            at <= seq.len(),
            *seq == *old(seq),
            place(seq@, e.frame) == place(seq@.take(at as int), e.frame),
        decreases at,
    {
        assert(seq@.take(at as int).drop_last() =~= seq@.take(at - 1));
        at = at - 1;
    }
    assert(at > 0 ==> seq@.take(at as int).last() == seq@[at - 1]);
    seq.insert(at, e);
}

/// The script: enters the code, starts the game and plays it.
pub fn build_autoplay_sequence() -> (seq: Vec<InputEvent>)
    ensures
        seq@ == sorted_events(planned(2023)),
        in_order(seq@),
        valid_events(seq@),
{
    let mut seq: Vec<InputEvent> = Vec::new();
    let mut n: usize = 0;
    assert(planned(0) =~= Seq::<InputEvent>::empty());
    while n < 2023
        invariant
            n <= 2023,
            seq@ == sorted_events(planned(n as nat)),
            valid_events(seq@),
        decreases 2023 - n,
    {
        let e: InputEvent = plan_event(n);
        insert_event(&mut seq, e);
        assert(planned((n + 1) as nat).drop_last() =~= planned(n as nat));
        n = n + 1;
    }
    proof {
        sorting_orders(planned(2023));
    }
    seq
}

/// The buttons held after the events from `from` to `to`.
pub open spec fn held_after(held: u8, seq: Seq<InputEvent>, from: int, to: int) -> u8
    decreases to - from,
{
    if to <= from {
        held
    } else {
        bus::pad_set(
            held_after(held, seq, from, to - 1),
            seq[to - 1].button,
            seq[to - 1].pressed,
        )
    }
}

/// A machine whose first controller holds `held`.
pub open spec fn holding(nes: NesModel, held: u8) -> NesModel {
    NesModel {
        bus: BusModel { controller: nes.bus.controller.update(0, held), ..nes.bus },
        ..nes
    }
}

/// Carries out the events that are due in a frame, from index `idx` on. Returns the
/// index of the next event.
pub fn apply_events(nes: &mut Nes, seq: &[InputEvent], idx: usize, frame: u32) -> (next: usize)
    requires
        old(nes).wf(),
        idx <= seq@.len(),
        valid_events(seq@),
    ensures
        final(nes).wf(),
        idx <= next <= seq@.len(),
        forall|i: int| idx <= i < next ==> #[trigger] seq@[i].frame <= frame,
        next < seq@.len() ==> seq@[next as int].frame > frame,
        final(nes)@ == holding(
            old(nes)@,
            held_after(old(nes)@.bus.controller[0], seq@, idx as int, next as int),
        ),
        final(nes).cpu == old(nes).cpu,
        final(nes).bus.apu == old(nes).bus.apu,
        final(nes).bus.ppu == old(nes).bus.ppu,
{
    let mut i: usize = idx;
    assert(nes@.bus.controller.update(0, nes@.bus.controller[0]) =~= nes@.bus.controller);
    while i < seq.len() && seq[i].frame <= frame
        invariant
            nes.wf(),
            idx <= i <= seq@.len(),
            valid_events(seq@),
            forall|k: int| idx <= k < i ==> #[trigger] seq@[k].frame <= frame,
            nes@ == holding(
                old(nes)@,
                held_after(old(nes)@.bus.controller[0], seq@, idx as int, i as int),
            ),
            old(nes)@.bus.controller.len() == 2,
            nes.cpu == old(nes).cpu,
            nes.bus.apu == old(nes).bus.apu,
            nes.bus.ppu == old(nes).bus.ppu,
        decreases seq@.len() - i,
    {
        let e: InputEvent = seq[i];
        set_held(nes, e.button, e.pressed);
        i = i + 1;
        assert(nes@.bus.controller =~= old(nes)@.bus.controller.update(
            0,
            held_after(old(nes)@.bus.controller[0], seq@, idx as int, i as int),
        ));
    }
    i
}

/// Presses or releases a button of the first controller.
fn set_held(nes: &mut Nes, button: u8, pressed: bool)
    requires
        old(nes).wf(),
        button < 8,
    ensures
        final(nes).wf(),
        final(nes)@ == holding(
            old(nes)@,
            bus::pad_set(old(nes)@.bus.controller[0], button, pressed),
        ),
        final(nes).cpu == old(nes).cpu,
        final(nes).bus.apu == old(nes).bus.apu,
        final(nes).bus.ppu == old(nes).bus.ppu,
{
    let held: u8 = nes.bus.controller[0];
    nes.bus.controller[0] = bus::set_pad(held, button, pressed);
}

/// The script is over.
pub fn script_over(frame: u32) -> (over: bool)
    ensures
        over == (frame > SCRIPT_END),
{
    frame > SCRIPT_END
}

/// Bit `b` of a byte is `held[b]`.
pub open spec fn pad_shows(pad: u8, held: Seq<bool>) -> bool {
    forall|b: int| 0 <= b < 8 ==> bits::bit8(pad, b) == #[trigger] held[b]
}

/// Lets the first controller hold exactly the given buttons.
pub fn hold_buttons(nes: &mut Nes, held: [bool; 8])
    requires
        old(nes).wf(),
    ensures
        final(nes).wf(),
        final(nes)@ == holding(old(nes)@, final(nes)@.bus.controller[0]),
        pad_shows(final(nes)@.bus.controller[0], held@),
{
    let mut pad: u8 = 0;
    let mut b: u8 = 0;
    while b < 8
        invariant
            b <= 8,
            forall|k: int| 0 <= k < b ==> bits::bit8(pad, k) == #[trigger] held@[k],
        decreases 8 - b,
    {
        let next: u8 = bus::set_pad(pad, b, held[b as usize]);
        proof {
            assert forall|k: int| 0 <= k < b + 1 implies bits::bit8(next, k)
                == #[trigger] held@[k] by {
                button_changes_its_bit(pad, b, held@[b as int], k);
            }
        }
        pad = next;
        b = b + 1;
    }
    nes.bus.controller[0] = pad;
}

/// The buttons held after a key of the terminal: small letters press, capitals release.
/// Left and right exclude each other.
pub open spec fn held_after_key(held: u8, key: u8) -> u8 {
    if key == 0x77 {
        bus::pad_set(held, BTN_UP, true)
    } else if key == 0x73 {
        bus::pad_set(held, BTN_DOWN, true)
    } else if key == 0x61 {
        bus::pad_set(bus::pad_set(held, BTN_LEFT, true), BTN_RIGHT, false)
    } else if key == 0x64 {
        bus::pad_set(bus::pad_set(held, BTN_RIGHT, true), BTN_LEFT, false)
    } else if key == 0x6A {
        bus::pad_set(held, BTN_A, true)
    } else if key == 0x6B {
        bus::pad_set(held, BTN_B, true)
    } else if key == 0x0D || key == 0x0A {
        bus::pad_set(held, BTN_START, true)
    } else if key == 0x20 {
        bus::pad_set(held, BTN_SELECT, true)
    } else if key == 0x57 {
        bus::pad_set(held, BTN_UP, false)
    } else if key == 0x53 {
        bus::pad_set(held, BTN_DOWN, false)
    } else if key == 0x41 {
        bus::pad_set(held, BTN_LEFT, false)
    } else if key == 0x44 {
        bus::pad_set(held, BTN_RIGHT, false)
    } else if key == 0x4A {
        bus::pad_set(held, BTN_A, false)
    } else if key == 0x4B {
        bus::pad_set(held, BTN_B, false)
    } else {
        held
    }
}

fn pad_after_key(held: u8, key: u8) -> (now: u8)
    ensures
        now == held_after_key(held, key),
{
    if key == 0x77 {
        bus::set_pad(held, BTN_UP, true)
    } else if key == 0x73 {
        bus::set_pad(held, BTN_DOWN, true)
    } else if key == 0x61 {
        bus::set_pad(bus::set_pad(held, BTN_LEFT, true), BTN_RIGHT, false)
    } else if key == 0x64 {
        bus::set_pad(bus::set_pad(held, BTN_RIGHT, true), BTN_LEFT, false)
    } else if key == 0x6A {
        bus::set_pad(held, BTN_A, true)
    } else if key == 0x6B {
        bus::set_pad(held, BTN_B, true)
    } else if key == 0x0D || key == 0x0A {
        bus::set_pad(held, BTN_START, true)
    } else if key == 0x20 {
        bus::set_pad(held, BTN_SELECT, true)
    } else if key == 0x57 {
        bus::set_pad(held, BTN_UP, false)
    } else if key == 0x53 {
        bus::set_pad(held, BTN_DOWN, false)
    } else if key == 0x41 {
        bus::set_pad(held, BTN_LEFT, false)
    } else if key == 0x44 {
        bus::set_pad(held, BTN_RIGHT, false)
    } else if key == 0x4A {
        bus::set_pad(held, BTN_A, false)
    } else if key == 0x4B {
        bus::set_pad(held, BTN_B, false)
    } else {
        held
    }
}

/// Handles a key of the terminal. False when the key ends the game: q or Ctrl-C.
pub fn press_key(nes: &mut Nes, key: u8) -> (goes_on: bool)
    requires
        old(nes).wf(),
    ensures
        final(nes).wf(),
        goes_on == (key != 0x71 && key != 3),
        final(nes)@ == holding(old(nes)@, held_after_key(old(nes)@.bus.controller[0], key)),
{
    let held: u8 = nes.bus.controller[0];
    nes.bus.controller[0] = pad_after_key(held, key);
    key != 0x71 && key != 3
}

/// Dropping the lower six bits of a byte keeps the upper two.
#[verifier::rlimit(50)]
proof fn lemma_upper_bits(held: u8)
    ensures
        forall|b: int|
            0 <= b < 8 ==> (#[trigger] bits::bit8((held / 64 * 64) as u8, b) <==> b >= 6
                && bits::bit8(held, b)),
{
    let kept = (held / 64 * 64) as u8;
    bits::bit_weights(held);
    bits::bit_weights(kept);
    assert forall|b: int| 0 <= b < 8 implies (#[trigger] bits::bit8(kept, b) <==> b >= 6
        && bits::bit8(held, b)) by {
        if b == 0 {
        } else if b == 1 {
        } else if b == 2 {
        } else if b == 3 {
        } else if b == 4 {
        } else if b == 5 {
        } else if b == 6 {
        } else {
            assert(b == 7);
        }
    }
}

/// Releases everything but left and right, as a terminal reports no releases. Done
/// every eighth frame.
pub fn release_momentary(nes: &mut Nes, frame: u32)
    requires
        old(nes).wf(),
    ensures
        final(nes).wf(),
        final(nes)@ == (if frame % 8 == 0 {
            holding(old(nes)@, (old(nes)@.bus.controller[0] / 64 * 64) as u8)
        } else {
            old(nes)@
        }),
        frame % 8 == 0 ==> forall|b: int|
            0 <= b < 8 ==> (#[trigger] bits::bit8(final(nes)@.bus.controller[0], b) <==> (b
                == BTN_LEFT || b == BTN_RIGHT) && bits::bit8(old(nes)@.bus.controller[0], b)),
{
    proof {
        let held = nes.bus.controller@[0];
        lemma_upper_bits(held);
    }
    if frame % 8 == 0 {
        let held: u8 = nes.bus.controller[0];
        nes.bus.controller[0] = held / 64 * 64;
    }
}

/// Pressing a button makes its bit 1 and releasing it makes it 0; no other bit changes.
pub proof fn button_changes_its_bit(held: u8, button: u8, pressed: bool, other: int)
    requires
        button < 8,
        0 <= other < 8,
    ensures
        bits::bit8(bus::pad_set(held, button, pressed), other) == (if other == button {
            pressed
        } else {
            bits::bit8(held, other)
        }),
{
    let new = bus::pad_set(held, button, pressed);
    let m = bits::weight(button as int) as u8;
    let k = bits::weight(other) as u8;
    bits::lemma_bit8(held);
    bits::lemma_bit8(new);
    assert((held & m != 0) == bits::bit8(held, button as int));
    assert((held & k != 0) == bits::bit8(held, other));
    assert((new & k != 0) == bits::bit8(new, other));
    assert((m == k) == (other == button));
    assert({
        &&& held & m == 0 ==> held + m <= 255
        &&& held & m == 0 ==> ((((held + m) as u8) & k) != 0) == (m == k || held & k != 0)
        &&& held & m != 0 ==> ((((held - m) as u8) & k) != 0) == (m != k && held & k != 0)
        &&& held & m != 0 ==> held - m >= 0
    }) by (bit_vector)
        requires
            m == 1 || m == 2 || m == 4 || m == 8 || m == 16 || m == 32 || m == 64 || m == 128,
            k == 1 || k == 2 || k == 4 || k == 8 || k == 16 || k == 32 || k == 64 || k == 128,
    ;
}

/// The script starts with the code, in order, and the events of the game follow: the
/// first 23 events are the planned ones.
pub proof fn code_comes_first(n: nat)
    requires
        23 <= n <= 2023,
    ensures
        sorted_events(planned(n)).len() == n,
        sorted_events(planned(n)).take(23) == planned(23),
    decreases n,
{
    let events = planned(n);
    sorting_orders(events);
    if n == 23 {
        lemma_planned_in_order(23);
        assert(planned(23).take(23) =~= planned(23));
    } else {
        code_comes_first((n - 1) as nat);
        assert(events.drop_last() =~= planned((n - 1) as nat));
        let rest = sorted_events(planned((n - 1) as nat));
        let e = events.last();
        sorting_orders(planned((n - 1) as nat));
        lemma_place(rest, e.frame);
        assert(e == planned_event(n - 1) && e.frame >= 610);
        let k = place(rest, e.frame);
        assert(rest[22] == rest.take(23)[22] && planned(23)[22].frame == 560);
        assert(k >= 23);
        assert(sorted_events(events).take(23) =~= rest.take(23));
    }
}

/// The code's events are planned in order, so sorting leaves them alone.
proof fn lemma_planned_in_order(n: nat)
    requires
        n <= 23,
    ensures
        sorted_events(planned(n)) == planned(n),
    decreases n,
{
    if n > 0 {
        lemma_planned_in_order((n - 1) as nat);
        assert(planned(n).drop_last() =~= planned((n - 1) as nat));
        let before = planned((n - 1) as nat);
        let e = planned(n).last();
        assert(n > 1 ==> before.last() == planned_event(n - 2));
        assert(n > 1 ==> before.last().frame <= e.frame);
        assert(place(before, e.frame) == before.len());
        assert(before.insert(before.len() as int, e) =~= planned(n));
    } else {
        assert(sorted_events(planned(0)) =~= planned(0));
    }
}

} // verus!
