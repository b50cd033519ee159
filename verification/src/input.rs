//! Keyboard input and the two-key axis that steers a paddle.

use shrev::{EventChannel, ReaderId};
use vstd::prelude::*;

use crate::arena::{
    centre, middle, Point, ARENA_HEIGHT, ARENA_WIDTH, PADDLE_SPEED, PADDLE_WIDTH,
};
use crate::channel::{drain, instance, issuer, position, register_reader, unread, written};
use crate::event::Event;

verus! {

/// Whether a key is held down.
#[derive(Clone, Copy, Debug, PartialEq, Eq, Structural)]
pub enum ElementState {
    Pressed,
    Released,
}

/// A key of the keyboard. The keys that the game gives a meaning of their
/// own are named; any other key is told apart by its number.
#[derive(Clone, Copy, Debug, PartialEq, Eq, Structural)]
pub enum KeyCode {
    A,
    L,
    O,
    Q,
    Space,
    Other(u32),
}

/// One change of one key. `virtual_keycode` is `None` for a key that the
/// platform could not identify.
#[derive(Clone, Copy, Debug, PartialEq, Eq)]
pub struct KeyboardInput {
    pub state: ElementState,
    pub virtual_keycode: Option<KeyCode>,
}

/// A key and the state it was last seen in.
#[derive(Clone, Copy, Debug, PartialEq, Eq)]
pub struct Binding {
    pub state: ElementState,
    pub key: KeyCode,
}

/// Two bound keys that pull in opposite directions.
#[derive(Clone, Copy, Debug, PartialEq, Eq)]
pub struct Axis {
    pub pos: Binding,
    pub neg: Binding,
}

/// The direction that two key states add up to: `1` when only the positive
/// key is held, `-1` when only the negative key is held, `0` when both or
/// neither are, so that opposite keys cancel.
pub open spec fn combined_sign(pos: ElementState, neg: ElementState) -> int {
    match (pos, neg) {
        (ElementState::Pressed, ElementState::Released) => 1,
        (ElementState::Released, ElementState::Pressed) => -1,
        _ => 0,
    }
}

impl Axis {
    /// The direction the axis points in at the moment.
    pub open spec fn sign(self) -> int {
        combined_sign(self.pos.state, self.neg.state)
    }

    /// Whether `key` is one of the two bound keys.
    pub open spec fn binds(self, key: KeyCode) -> bool {
        key == self.pos.key || key == self.neg.key
    }

    /// Whether the axis takes notice of `input`: only where the input names
    /// one of the two bound keys. An input without a key code names none.
    pub open spec fn heeds(self, input: KeyboardInput) -> bool {
        match input.virtual_keycode {
            Some(key) => self.binds(key),
            None => false,
        }
    }

    /// The axis after `input`. At most one binding changes state. Where both
    /// bindings hold the same key, the positive one takes the input.
    pub open spec fn after(self, input: KeyboardInput) -> Axis {
        match input.virtual_keycode {
            Some(key) => if key == self.pos.key {
                Axis { pos: Binding { state: input.state, key: self.pos.key }, neg: self.neg }
            } else if key == self.neg.key {
                Axis { pos: self.pos, neg: Binding { state: input.state, key: self.neg.key } }
            } else {
                self
            },
            None => self,
        }
    }

    /// What the axis reports of `input`: the direction it points in once it
    /// has taken the input, or nothing where it does not heed it.
    pub open spec fn reported(self, input: KeyboardInput) -> Option<i8> {
        if self.heeds(input) {
            Some(self.after(input).sign() as i8)
        } else {
            None
        }
    }

    /// An axis on the two keys, both released.
    pub fn new(pos: KeyCode, neg: KeyCode) -> (axis: Axis)
        ensures
            axis.pos.key == pos,
            axis.neg.key == neg,
            axis.pos.state == ElementState::Released,
            axis.neg.state == ElementState::Released,
    {
        Axis {
            pos: Binding { key: pos, state: ElementState::Released },
            neg: Binding { key: neg, state: ElementState::Released },
        }
    }

    /// Feeds one key change to the axis and reports the direction it points
    /// in afterwards. An input that the axis does not heed, for a key that is
    /// not bound or without a key code, is ignored: the axis stays as it was
    /// and `None` is reported.
    pub fn update(&mut self, input: KeyboardInput) -> (sign: Option<i8>)
        ensures
            *final(self) == old(self).after(input),
            sign == old(self).reported(input),
    {
        match input.virtual_keycode {
            Some(key) => {
                if key == self.pos.key {
                    self.pos.state = input.state;
                } else if key == self.neg.key {
                    self.neg.state = input.state;
                } else {
                    return None;
                }
            },
            None => {
                return None;
            },
        }
        Some(
            match (self.pos.state, self.neg.state) {
                (ElementState::Released, ElementState::Released) => 0,
                (ElementState::Pressed, ElementState::Released) => 1,
                (ElementState::Released, ElementState::Pressed) => -1,
                (ElementState::Pressed, ElementState::Pressed) => 0,
            },
        )
    }
}

/// What the input system asks of the world.
#[derive(Clone, Copy, Debug, PartialEq, Eq)]
pub enum Command {
    /// Put a new ball into play at `position`.
    SpawnBall { position: Point },
    /// Set the speed along its edge of the paddle that owns the axis at
    /// index `paddle`.
    Steer { paddle: usize, speed: i32 },
}

/// Whether `input` asks for a new ball: the space bar let go.
pub open spec fn is_spawn(input: KeyboardInput) -> bool {
    input.virtual_keycode == Some(KeyCode::Space) && input.state == ElementState::Released
}

/// Every axis of `axes` after `input`.
pub open spec fn steered(axes: Seq<Axis>, input: KeyboardInput) -> Seq<Axis> {
    axes.map_values(|axis: Axis| axis.after(input))
}

/// The commands that `input` gives rise to when it is fed to `axes`: one for
/// each axis that heeds it, in the order of the axes, with the speed that the
/// axis points to afterwards.
pub open spec fn steering(axes: Seq<Axis>, input: KeyboardInput) -> Seq<Command>
    decreases axes.len(),
{
    if axes.len() == 0 {
        Seq::empty()
    } else {
        let before = steering(axes.drop_last(), input);
        let axis = axes.last();
        if axis.heeds(input) {
            before.push(
                Command::Steer {
                    paddle: (axes.len() - 1) as usize,
                    speed: (axis.after(input).sign() * PADDLE_SPEED) as i32,
                },
            )
        } else {
            before
        }
    }
}

/// The axes after one event. Only a key change that does not ask for a ball
/// reaches them.
pub open spec fn axes_after(axes: Seq<Axis>, event: Event) -> Seq<Axis> {
    match event {
        Event::Keyboard(input) => if is_spawn(input) {
            axes
        } else {
            steered(axes, input)
        },
        _ => axes,
    }
}

/// The commands that one event gives rise to: a request for a ball puts one
/// in the middle of the arena, any other key change steers.
pub open spec fn commands_for(axes: Seq<Axis>, event: Event) -> Seq<Command> {
    match event {
        Event::Keyboard(input) => if is_spawn(input) {
            seq![Command::SpawnBall { position: middle() }]
        } else {
            steering(axes, input)
        },
        _ => Seq::empty(),
    }
}

/// The axes after a run of events, taken in order.
pub open spec fn axes_after_all(axes: Seq<Axis>, events: Seq<Event>) -> Seq<Axis>
    decreases events.len(),
{
    if events.len() == 0 {
        axes
    } else {
        axes_after(axes_after_all(axes, events.drop_last()), events.last())
    }
}

/// The commands that a run of events gives rise to: those of each event in
/// turn, each event meeting the axes as the events before it left them.
pub open spec fn commands_for_all(axes: Seq<Axis>, events: Seq<Event>) -> Seq<Command>
    decreases events.len(),
{
    if events.len() == 0 {
        Seq::empty()
    } else {
        commands_for_all(axes, events.drop_last()) + commands_for(
            axes_after_all(axes, events.drop_last()),
            events.last(),
        )
    }
}

/// Whether `command` can be carried out on a world with `paddles` steered
/// paddles: it steers one of them, at the paddle speed in either direction
/// or to rest, or it puts a ball inside the arena.
pub open spec fn in_range(command: Command, paddles: nat) -> bool {
    match command {
        Command::SpawnBall { position } => {
            &&& position.x <= ARENA_WIDTH
            &&& position.y <= ARENA_HEIGHT
        },
        Command::Steer { paddle, speed } => {
            &&& paddle < paddles
            &&& speed == PADDLE_SPEED || speed == 0 || speed == -PADDLE_SPEED
        },
    }
}

/// Steering sets no speed that reaches the width of a paddle, and steers
/// only paddles that are there.
pub proof fn lemma_steering_is_in_range(axes: Seq<Axis>, input: KeyboardInput, k: int)
    requires
        0 <= k < steering(axes, input).len(),
        axes.len() <= usize::MAX,
    ensures
        in_range(steering(axes, input)[k], axes.len()),
        steering(axes, input)[k] matches Command::Steer { speed, .. } && -PADDLE_WIDTH < speed
            < PADDLE_WIDTH,
    decreases axes.len(),
{
    if axes.len() > 0 {
        let before = steering(axes.drop_last(), input);
        if k < before.len() {
            lemma_steering_is_in_range(axes.drop_last(), input, k);
        }
    }
}

/// Events leave the number of axes as it is.
pub proof fn lemma_axes_keep_their_number(axes: Seq<Axis>, events: Seq<Event>)
    ensures
        axes_after_all(axes, events).len() == axes.len(),
    decreases events.len(),
{
    if events.len() > 0 {
        lemma_axes_keep_their_number(axes, events.drop_last());
    }
}

/// Whatever the events, every command that answers them can be carried out
/// on the paddles whose axes were handed in, and no speed it sets reaches
/// the width of a paddle.
pub proof fn lemma_commands_are_in_range(axes: Seq<Axis>, events: Seq<Event>, k: int)
    requires
        0 <= k < commands_for_all(axes, events).len(),
        axes.len() <= usize::MAX,
    ensures
        in_range(commands_for_all(axes, events)[k], axes.len()),
        commands_for_all(axes, events)[k] matches Command::Steer { speed, .. } ==> -PADDLE_WIDTH
            < speed < PADDLE_WIDTH,
    decreases events.len(),
{
    if events.len() > 0 {
        let earlier = commands_for_all(axes, events.drop_last());
        if k < earlier.len() {
            lemma_commands_are_in_range(axes, events.drop_last(), k);
        } else {
            let met = axes_after_all(axes, events.drop_last());
            lemma_axes_keep_their_number(axes, events.drop_last());
            if let Event::Keyboard(input) = events.last() {
                if !is_spawn(input) {
                    lemma_steering_is_in_range(met, input, k - earlier.len());
                }
            }
        }
    }
}

/// It makes no difference how often the events are taken off the channel:
/// answering `first` and then `second` leaves the axes and gives the commands
/// that answering all of them at once does.
pub proof fn lemma_runs_add_up(axes: Seq<Axis>, first: Seq<Event>, second: Seq<Event>)
    ensures
        axes_after_all(axes, first + second) == axes_after_all(
            axes_after_all(axes, first),
            second,
        ),
        commands_for_all(axes, first + second) == commands_for_all(axes, first)
            + commands_for_all(axes_after_all(axes, first), second),
    decreases second.len(),
{
    if second.len() == 0 {
        assert(first + second =~= first);
        assert(commands_for_all(axes, first) + Seq::<Command>::empty() =~= commands_for_all(
            axes,
            first,
        ));
    } else {
        let met = axes_after_all(axes, first);
        lemma_runs_add_up(axes, first, second.drop_last());
        assert((first + second).drop_last() =~= first + second.drop_last());
        assert((first + second).last() == second.last());
        assert(commands_for_all(axes, first) + (commands_for_all(met, second.drop_last())
            + commands_for(axes_after_all(met, second.drop_last()), second.last()))
            =~= commands_for_all(axes, first) + commands_for_all(met, second.drop_last())
            + commands_for(axes_after_all(met, second.drop_last()), second.last()));
    }
}

/// Whether `input` asks for a new ball.
pub fn asks_for_ball(input: KeyboardInput) -> (spawn: bool)
    ensures
        spawn == is_spawn(input),
{
    match (input.virtual_keycode, input.state) {
        (Some(KeyCode::Space), ElementState::Released) => true,
        _ => false,
    }
}

/// Feeds `input` to every axis and lists the paddles whose speed it sets.
pub fn steer(axes: &mut Vec<Axis>, input: KeyboardInput) -> (commands: Vec<Command>)
    ensures
        final(axes)@ == steered(old(axes)@, input),
        commands@ == steering(old(axes)@, input),
{
    let mut commands: Vec<Command> = Vec::new();
    let mut i: usize = 0;
    while i < axes.len()
        invariant
            i <= axes.len(),
            axes.len() == old(axes).len(),
            forall|k: int| 0 <= k < i ==> axes@[k] == (#[trigger] old(axes)@[k]).after(input),
            forall|k: int| i <= k < axes.len() ==> axes@[k] == old(axes)@[k],
            commands@ == steering(old(axes)@.take(i as int), input),
        decreases axes.len() - i,
    {
        let mut axis = axes[i];
        let sign = axis.update(input);
        axes.set(i, axis);
        proof {
            assert(old(axes)@.take(i + 1).drop_last() == old(axes)@.take(i as int));
        }
        if let Some(sign) = sign {
            commands.push(Command::Steer { paddle: i, speed: sign as i32 * PADDLE_SPEED });
        }
        i += 1;
    }
    proof {
        assert(old(axes)@.take(i as int) == old(axes)@);
    }
    commands
}

/// Answers a run of events in order: a request for a ball with a
/// `Command::SpawnBall` for the middle of the arena, any other key change by
/// steering the axes, and every other event with nothing.
pub fn respond(axes: &mut Vec<Axis>, events: &Vec<Event>) -> (commands: Vec<Command>)
    ensures
        final(axes)@ == axes_after_all(old(axes)@, events@),
        commands@ == commands_for_all(old(axes)@, events@),
{
    let mut commands: Vec<Command> = Vec::new();
    let mut i: usize = 0;
    while i < events.len()
        invariant
            i <= events.len(),
            axes@ == axes_after_all(old(axes)@, events@.take(i as int)),
            commands@ == commands_for_all(old(axes)@, events@.take(i as int)),
        decreases events.len() - i,
    {
        proof {
            assert(events@.take(i + 1).drop_last() == events@.take(i as int));
        }
        if let Event::Keyboard(input) = events[i] {
            if asks_for_ball(input) {
                commands.push(Command::SpawnBall { position: centre() });
            } else {
                let mut steers = steer(axes, input);
                commands.append(&mut steers);
            }
        }
        i += 1;
    }
    proof {
        assert(events@.take(i as int) == events@);
    }
    commands
}

/// The system that turns the channel's events into commands. It holds the
/// one reader through which it sees each event once.
pub struct InputSystem {
    event_rx: ReaderId<Event>,
}

impl InputSystem {
    /// The `instance` of the channel that the system reads from.
    pub closed spec fn source(&self) -> int {
        issuer(self.event_rx)
    }

    /// How many of the channel's events lie behind the system.
    pub closed spec fn cursor(&self) -> nat {
        position(self.event_rx)
    }

    /// Whether the system is a reader of `channel`.
    pub open spec fn reads(&self, channel: EventChannel<Event>) -> bool {
        self.source() == instance(channel)
    }

    /// The events of `channel` that the system has yet to see.
    pub open spec fn pending(&self, channel: EventChannel<Event>) -> Seq<Event> {
        unread(written(channel), self.cursor())
    }

    /// A system that reads from `channel` and sees what is written from now
    /// on.
    pub fn new(channel: &mut EventChannel<Event>) -> (system: InputSystem)
        ensures
            system.reads(*final(channel)),
            system.cursor() == written(*old(channel)).len(),
            written(*final(channel)) == written(*old(channel)),
            instance(*final(channel)) == instance(*old(channel)),
    {
        InputSystem { event_rx: register_reader(channel) }
    }

    /// Takes the pending events off the channel and answers them as
    /// `respond` does. The channel must be the one that the system was made
    /// for.
    pub fn run(&mut self, channel: &EventChannel<Event>, axes: &mut Vec<Axis>) -> (commands: Vec<
        Command,
    >)
        requires
            old(self).reads(*channel),
        ensures
            final(self).reads(*channel),
            final(self).cursor() == written(*channel).len(),
            final(axes)@ == axes_after_all(old(axes)@, old(self).pending(*channel)),
            commands@ == commands_for_all(old(axes)@, old(self).pending(*channel)),
    {
        let events = drain(channel, &mut self.event_rx);
        respond(axes, &events)
    }
}

} // verus!
