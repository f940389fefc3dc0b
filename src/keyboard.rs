//! Edge-triggered PS/2 key encoder: four independent channels (button A,
//! button B, tilt left, tilt right), each emitting its make sequence when its
//! condition becomes true and its break sequence when it becomes false.
use vstd::prelude::*;

verus! {

/// Tilt (raw accelerometer units) beyond which a directional key is held.
pub const TILT_THRESHOLD: i16 = 300;

/// Number of bytes in a key packet.
pub const KEY_PACKET_LEN: usize = 11;

/// What one channel did on one tick.
#[derive(Clone, Copy, Debug, PartialEq, Eq, Structural)]
pub enum Edge {
    /// The condition became true: the make sequence is sent.
    Rise,
    /// The condition became false: the break sequence is sent.
    Fall,
    /// The condition did not change: nothing is sent.
    Steady,
}

pub open spec fn edge_of(cond: bool, prev: bool) -> Edge {
    if cond && !prev {
        Edge::Rise
    } else if !cond && prev {
        Edge::Fall
    } else {
        Edge::Steady
    }
}

/// `s` followed by zeros up to `width` bytes.
pub open spec fn pad(s: Seq<u8>, width: nat) -> Seq<u8> {
    s + Seq::new((width - s.len()) as nat, |i: int| 0u8)
}

/// The bytes a channel contributes for one edge, within its field of `width`.
pub open spec fn channel_field(e: Edge, make: Seq<u8>, brk: Seq<u8>, width: nat) -> Seq<u8> {
    pad(
        match e {
            Edge::Rise => make,
            Edge::Fall => brk,
            Edge::Steady => Seq::empty(),
        },
        width,
    )
}

/// Scan code of the key bound to button A.
pub const KEY_A: u8 = 0x1a;
/// Scan code of the key bound to button B.
pub const KEY_B: u8 = 0x22;
/// Scan code (extended) of the left arrow, bound to tilting left.
pub const KEY_LEFT: u8 = 0x6b;
/// Scan code (extended) of the right arrow, bound to tilting right.
pub const KEY_RIGHT: u8 = 0x74;

/// Prefix of a break sequence.
pub const BREAK_PREFIX: u8 = 0xf0;
/// Prefix of an extended key's sequences.
pub const EXTENDED_PREFIX: u8 = 0xe0;

pub open spec fn make_of(k: u8) -> Seq<u8> {
    seq![k]
}

pub open spec fn break_of(k: u8) -> Seq<u8> {
    seq![BREAK_PREFIX, k]
}

pub open spec fn extended_make_of(k: u8) -> Seq<u8> {
    seq![EXTENDED_PREFIX, k]
}

pub open spec fn extended_break_of(k: u8) -> Seq<u8> {
    seq![EXTENDED_PREFIX, BREAK_PREFIX, k]
}

pub open spec fn make_a() -> Seq<u8> {
    make_of(KEY_A)
}

pub open spec fn break_a() -> Seq<u8> {
    break_of(KEY_A)
}

pub open spec fn make_b() -> Seq<u8> {
    make_of(KEY_B)
}

pub open spec fn break_b() -> Seq<u8> {
    break_of(KEY_B)
}

pub open spec fn make_left() -> Seq<u8> {
    extended_make_of(KEY_LEFT)
}

pub open spec fn break_left() -> Seq<u8> {
    extended_break_of(KEY_LEFT)
}

pub open spec fn make_right() -> Seq<u8> {
    extended_make_of(KEY_RIGHT)
}

pub open spec fn break_right() -> Seq<u8> {
    extended_break_of(KEY_RIGHT)
}

pub open spec fn tilt_left(x: i16) -> bool {
    x < -TILT_THRESHOLD
}

pub open spec fn tilt_right(x: i16) -> bool {
    x > TILT_THRESHOLD
}

/// Converts tilt and button states to PS/2 key make/break sequences.
pub struct KeyboardConverter {
    /// Last reported state of the tilt-left channel.
    pub prev_left: bool,
    /// Last reported state of the tilt-right channel.
    pub prev_right: bool,
    /// Last reported state of the button A channel.
    pub prev_z: bool,
    /// Last reported state of the button B channel.
    pub prev_x: bool,
}

/// The four channels' remembered states, in packet order: A, B, left, right.
pub struct KeyState {
    pub a: bool,
    pub b: bool,
    pub left: bool,
    pub right: bool,
}

impl KeyboardConverter {
    pub open spec fn view(&self) -> KeyState {
        KeyState { a: self.prev_z, b: self.prev_x, left: self.prev_left, right: self.prev_right }
    }

    /// Creates a converter with every channel inactive.
    pub fn new() -> (r: Self)
        ensures
            r.view() == (KeyState { a: false, b: false, left: false, right: false }),
    {
        KeyboardConverter { prev_left: false, prev_right: false, prev_z: false, prev_x: false }
    }

    /// Emits, in fixed channel order and at fixed offsets, the make or break
    /// sequence of each channel whose condition changed since the last call;
    /// every other byte is zero. Each channel then remembers its condition.
    pub fn sensor_data_to_packet(&mut self, x: i16, buttons: (bool, bool)) -> (packet: [u8; 11])
        ensures
            final(self).view() == next_key_state(old(self).view(), x, buttons),
            packet@ == key_packet(old(self).view(), x, buttons),
    {
        let fa = key_field(latch(&mut self.prev_z, buttons.0), KEY_A);
        let fb = key_field(latch(&mut self.prev_x, buttons.1), KEY_B);
        let fl = extended_key_field(latch(&mut self.prev_left, x < -TILT_THRESHOLD), KEY_LEFT);
        let fr = extended_key_field(latch(&mut self.prev_right, x > TILT_THRESHOLD), KEY_RIGHT);
        let packet = [fa[0], fa[1], fb[0], fb[1], fl[0], fl[1], fl[2], fr[0], fr[1], fr[2], 0u8];
        assert(packet@ =~= fa@ + fb@ + fl@ + fr@ + seq![0u8]);
        assert(packet@ =~= key_packet(old(self).view(), x, buttons));
        packet
    }
}

/// One channel's state machine: reports the edge between the remembered
/// condition and `cond`, and remembers `cond`.
pub fn latch(prev: &mut bool, cond: bool) -> (e: Edge)
    ensures
        e == edge_of(cond, *old(prev)),
        *final(prev) == cond,
{
    let e = if cond && !*prev {
        Edge::Rise
    } else if !cond && *prev {
        Edge::Fall
    } else {
        Edge::Steady
    };
    *prev = cond;
    e
}

/// The 2-byte field of a key with a one-byte scan code for one edge.
pub fn key_field(e: Edge, k: u8) -> (f: [u8; 2])
    ensures
        f@ == channel_field(e, make_of(k), break_of(k), 2),
{
    let f = match e {
        Edge::Rise => [k, 0u8],
        Edge::Fall => [BREAK_PREFIX, k],
        Edge::Steady => [0u8, 0u8],
    };
    assert(f@ =~= channel_field(e, make_of(k), break_of(k), 2));
    f
}

/// The 3-byte field of an extended key for one edge.
pub fn extended_key_field(e: Edge, k: u8) -> (f: [u8; 3])
    ensures
        f@ == channel_field(e, extended_make_of(k), extended_break_of(k), 3),
{
    let f = match e {
        Edge::Rise => [EXTENDED_PREFIX, k, 0u8],
        Edge::Fall => [EXTENDED_PREFIX, BREAK_PREFIX, k],
        Edge::Steady => [0u8, 0u8, 0u8],
    };
    assert(f@ =~= channel_field(e, extended_make_of(k), extended_break_of(k), 3));
    f
}

/// Every channel remembers its current condition.
pub open spec fn next_key_state(s: KeyState, x: i16, buttons: (bool, bool)) -> KeyState {
    KeyState { a: buttons.0, b: buttons.1, left: tilt_left(x), right: tilt_right(x) }
}

/// The 11-byte packet: fields of 2, 2, 3 and 3 bytes for A, B, left and right,
/// then one byte that is always zero.
pub open spec fn key_packet(s: KeyState, x: i16, buttons: (bool, bool)) -> Seq<u8> {
    channel_field(edge_of(buttons.0, s.a), make_a(), break_a(), 2)
        + channel_field(edge_of(buttons.1, s.b), make_b(), break_b(), 2)
        + channel_field(edge_of(tilt_left(x), s.left), make_left(), break_left(), 3)
        + channel_field(edge_of(tilt_right(x), s.right), make_right(), break_right(), 3)
        + seq![0u8]
}

/// One of the four key channels.
#[derive(Clone, Copy, Debug, PartialEq, Eq, Structural)]
pub enum Channel {
    A,
    B,
    Left,
    Right,
}

/// A tick's inputs: the X tilt and the two buttons.
pub type Tick = (i16, (bool, bool));

pub open spec fn channel_cond(c: Channel, t: Tick) -> bool {
    match c {
        Channel::A => t.1.0,
        Channel::B => t.1.1,
        Channel::Left => tilt_left(t.0),
        Channel::Right => tilt_right(t.0),
    }
}

pub open spec fn channel_state(c: Channel, s: KeyState) -> bool {
    match c {
        Channel::A => s.a,
        Channel::B => s.b,
        Channel::Left => s.left,
        Channel::Right => s.right,
    }
}

/// The edge channel `c` reports on tick `t` from state `s`.
pub open spec fn channel_edge(c: Channel, s: KeyState, t: Tick) -> Edge {
    edge_of(channel_cond(c, t), channel_state(c, s))
}

/// The field of channel `c` in the packet sent on tick `t` from state `s`.
pub open spec fn channel_bytes(c: Channel, s: KeyState, t: Tick) -> Seq<u8> {
    let p = key_packet(s, t.0, t.1);
    match c {
        Channel::A => p.subrange(0, 2),
        Channel::B => p.subrange(2, 4),
        Channel::Left => p.subrange(4, 7),
        Channel::Right => p.subrange(7, 10),
    }
}

pub open spec fn channel_make(c: Channel) -> Seq<u8> {
    match c {
        Channel::A => make_a(),
        Channel::B => make_b(),
        Channel::Left => make_left(),
        Channel::Right => make_right(),
    }
}

pub open spec fn channel_break(c: Channel) -> Seq<u8> {
    match c {
        Channel::A => break_a(),
        Channel::B => break_b(),
        Channel::Left => break_left(),
        Channel::Right => break_right(),
    }
}

pub open spec fn channel_width(c: Channel) -> nat {
    match c {
        Channel::A | Channel::B => 2,
        Channel::Left | Channel::Right => 3,
    }
}

pub open spec fn initial_key_state() -> KeyState {
    KeyState { a: false, b: false, left: false, right: false }
}

/// The state after feeding `ticks` in order, starting from `s`.
pub open spec fn run_keys(s: KeyState, ticks: Seq<Tick>) -> KeyState
    decreases ticks.len(),
{
    if ticks.len() == 0 {
        s
    } else {
        let t = ticks.last();
        next_key_state(run_keys(s, ticks.drop_last()), t.0, t.1)
    }
}

/// How many of `ticks`, fed in order from `s`, made channel `c` report `e`.
pub open spec fn count_edges(c: Channel, e: Edge, s: KeyState, ticks: Seq<Tick>) -> nat
    decreases ticks.len(),
{
    if ticks.len() == 0 {
        0
    } else {
        let before = run_keys(s, ticks.drop_last());
        count_edges(c, e, s, ticks.drop_last()) + if channel_edge(c, before, ticks.last()) == e {
            1nat
        } else {
            0nat
        }
    }
}

/// A channel's field of the packet holds its make sequence on a rising edge,
/// its break sequence on a falling edge, and only zeros otherwise.
pub proof fn lemma_channel_bytes(c: Channel, s: KeyState, t: Tick)
    ensures
        channel_bytes(c, s, t) == channel_field(
            channel_edge(c, s, t),
            channel_make(c),
            channel_break(c),
            channel_width(c),
        ),
{
    let p = key_packet(s, t.0, t.1);
    let fa = channel_field(edge_of(t.1.0, s.a), make_a(), break_a(), 2);
    let fb = channel_field(edge_of(t.1.1, s.b), make_b(), break_b(), 2);
    let fl = channel_field(edge_of(tilt_left(t.0), s.left), make_left(), break_left(), 3);
    let fr = channel_field(edge_of(tilt_right(t.0), s.right), make_right(), break_right(), 3);
    assert(fa.len() == 2 && fb.len() == 2 && fl.len() == 3 && fr.len() == 3);
    match c {
        Channel::A => assert(p.subrange(0, 2) =~= fa),
        Channel::B => assert(p.subrange(2, 4) =~= fb),
        Channel::Left => assert(p.subrange(4, 7) =~= fl),
        Channel::Right => assert(p.subrange(7, 10) =~= fr),
    }
}

/// Feeding the same inputs twice in a row: the second call sends no byte and
/// leaves every channel as the first call left it.
pub proof fn lemma_repeat_is_quiet(s: KeyState, x: i16, buttons: (bool, bool))
    ensures
        next_key_state(next_key_state(s, x, buttons), x, buttons) == next_key_state(
            s,
            x,
            buttons,
        ),
        key_packet(next_key_state(s, x, buttons), x, buttons) =~= Seq::new(11, |i: int| 0u8),
{
}

/// Over any sequence of ticks from the initial state, each channel has sent
/// as many break sequences as make sequences, or one make sequence more; one
/// more exactly when its condition is active now (on the last tick).
pub proof fn lemma_make_break_paired(c: Channel, ticks: Seq<Tick>)
    ensures
        count_edges(c, Edge::Rise, initial_key_state(), ticks) == count_edges(
            c,
            Edge::Fall,
            initial_key_state(),
            ticks,
        ) + if channel_state(c, run_keys(initial_key_state(), ticks)) {
            1int
        } else {
            0int
        },
        ticks.len() > 0 ==> channel_state(c, run_keys(initial_key_state(), ticks))
            == channel_cond(c, ticks.last()),
    decreases ticks.len(),
{
    if ticks.len() > 0 {
        lemma_make_break_paired(c, ticks.drop_last());
    }
}

} // verus!
