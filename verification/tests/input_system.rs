use pong::arena::{Point, PADDLE_SPEED};
use pong::event::Event;
use pong::input::{
    asks_for_ball, respond, steer, Axis, Command, ElementState, KeyCode, KeyboardInput,
};

fn press(key: KeyCode) -> KeyboardInput {
    KeyboardInput { state: ElementState::Pressed, virtual_keycode: Some(key) }
}

fn release(key: KeyCode) -> KeyboardInput {
    KeyboardInput { state: ElementState::Released, virtual_keycode: Some(key) }
}

fn spawn_ball() -> Command {
    Command::SpawnBall { position: Point { x: 512, y: 384 } }
}

fn paddles() -> Vec<Axis> {
    vec![Axis::new(KeyCode::A, KeyCode::Q), Axis::new(KeyCode::L, KeyCode::O)]
}

#[test]
fn paddle_speed_is_ten() {
    assert_eq!(PADDLE_SPEED, 10);
}

#[test]
fn only_space_released_asks_for_a_ball() {
    assert!(asks_for_ball(release(KeyCode::Space)));
    assert!(!asks_for_ball(press(KeyCode::Space)));
    assert!(!asks_for_ball(release(KeyCode::A)));
    assert!(!asks_for_ball(release(KeyCode::Other(0))));
    assert!(!asks_for_ball(KeyboardInput {
        state: ElementState::Released,
        virtual_keycode: None
    }));
}

#[test]
fn steer_sets_speed_of_the_paddle_that_binds_the_key() {
    let mut axes = paddles();
    assert_eq!(steer(&mut axes, press(KeyCode::A)), vec![Command::Steer { paddle: 0, speed: 10 }]);
    assert_eq!(axes[0].pos.state, ElementState::Pressed);
    assert_eq!(axes[1], Axis::new(KeyCode::L, KeyCode::O));
    assert_eq!(
        steer(&mut axes, press(KeyCode::O)),
        vec![Command::Steer { paddle: 1, speed: -10 }]
    );
    assert_eq!(steer(&mut axes, press(KeyCode::Q)), vec![Command::Steer { paddle: 0, speed: 0 }]);
    assert_eq!(
        steer(&mut axes, release(KeyCode::A)),
        vec![Command::Steer { paddle: 0, speed: -10 }]
    );
}

#[test]
fn steer_with_unbound_key_changes_nothing() {
    let mut axes = paddles();
    assert_eq!(steer(&mut axes, press(KeyCode::Other(3))), vec![]);
    assert_eq!(axes, paddles());
}

#[test]
fn steer_without_key_code_changes_nothing() {
    let mut axes = paddles();
    steer(&mut axes, press(KeyCode::L));
    let before = axes.clone();
    let nameless = KeyboardInput { state: ElementState::Released, virtual_keycode: None };
    assert_eq!(steer(&mut axes, nameless), vec![]);
    assert_eq!(axes, before);
}

#[test]
fn respond_ignores_a_key_change_without_key_code() {
    let mut axes = paddles();
    let events = vec![
        Event::Keyboard(press(KeyCode::A)),
        Event::Keyboard(KeyboardInput { state: ElementState::Released, virtual_keycode: None }),
        Event::Keyboard(KeyboardInput { state: ElementState::Pressed, virtual_keycode: None }),
    ];
    assert_eq!(respond(&mut axes, &events), vec![Command::Steer { paddle: 0, speed: 10 }]);
    assert_eq!(axes[0].pos.state, ElementState::Pressed);
    assert_eq!(axes[0].neg.state, ElementState::Released);
    assert_eq!(axes[1], Axis::new(KeyCode::L, KeyCode::O));
}

#[test]
fn new_ball_is_put_in_the_middle_of_the_arena() {
    let mut axes = paddles();
    let events = vec![Event::Keyboard(release(KeyCode::Space))];
    assert_eq!(
        respond(&mut axes, &events),
        vec![Command::SpawnBall { position: Point { x: 512, y: 384 } }]
    );
}

#[test]
fn steer_reaches_every_axis_that_shares_a_key() {
    let mut axes = vec![
        Axis::new(KeyCode::A, KeyCode::Q),
        Axis::new(KeyCode::Q, KeyCode::A),
        Axis::new(KeyCode::L, KeyCode::O),
    ];
    assert_eq!(
        steer(&mut axes, press(KeyCode::A)),
        vec![Command::Steer { paddle: 0, speed: 10 }, Command::Steer { paddle: 1, speed: -10 }]
    );
}

#[test]
fn steer_on_no_axes_gives_nothing() {
    let mut axes: Vec<Axis> = Vec::new();
    assert_eq!(steer(&mut axes, press(KeyCode::A)), vec![]);
}

#[test]
fn respond_spawns_on_space_released_and_leaves_axes_alone() {
    let mut axes = paddles();
    let events = vec![Event::Keyboard(release(KeyCode::Space))];
    assert_eq!(respond(&mut axes, &events), vec![spawn_ball()]);
    assert_eq!(axes, paddles());
}

#[test]
fn respond_feeds_space_pressed_to_the_axes() {
    let mut axes = vec![Axis::new(KeyCode::Space, KeyCode::Q)];
    let events =
        vec![Event::Keyboard(press(KeyCode::Space)), Event::Keyboard(release(KeyCode::Space))];
    assert_eq!(
        respond(&mut axes, &events),
        vec![Command::Steer { paddle: 0, speed: 10 }, spawn_ball()]
    );
    assert_eq!(axes[0].pos.state, ElementState::Pressed);
}

#[test]
fn respond_skips_events_that_are_not_key_changes() {
    let mut axes = paddles();
    let events = vec![Event::Other, Event::CloseRequested, Event::Other];
    assert_eq!(respond(&mut axes, &events), vec![]);
    assert_eq!(axes, paddles());
}

#[test]
fn respond_answers_events_in_order() {
    let mut axes = paddles();
    let events = vec![
        Event::Keyboard(press(KeyCode::A)),
        Event::Other,
        Event::Keyboard(press(KeyCode::Q)),
        Event::Keyboard(release(KeyCode::Space)),
        Event::Keyboard(press(KeyCode::O)),
        Event::Keyboard(release(KeyCode::Q)),
        Event::Keyboard(press(KeyCode::Other(99))),
    ];
    assert_eq!(
        respond(&mut axes, &events),
        vec![
            Command::Steer { paddle: 0, speed: 10 },
            Command::Steer { paddle: 0, speed: 0 },
            spawn_ball(),
            Command::Steer { paddle: 1, speed: -10 },
            Command::Steer { paddle: 0, speed: 10 },
        ]
    );
    assert_eq!(axes[0].pos.state, ElementState::Pressed);
    assert_eq!(axes[0].neg.state, ElementState::Released);
    assert_eq!(axes[1].pos.state, ElementState::Released);
    assert_eq!(axes[1].neg.state, ElementState::Pressed);
}

#[test]
fn respond_to_nothing_gives_nothing() {
    let mut axes = paddles();
    assert_eq!(respond(&mut axes, &Vec::new()), vec![]);
    assert_eq!(axes, paddles());
}

#[test]
fn answering_in_two_runs_gives_what_one_run_gives() {
    let events = vec![
        Event::Keyboard(press(KeyCode::A)),
        Event::Keyboard(press(KeyCode::L)),
        Event::Keyboard(release(KeyCode::Space)),
        Event::Keyboard(press(KeyCode::Q)),
        Event::Other,
        Event::Keyboard(release(KeyCode::L)),
        Event::Keyboard(release(KeyCode::A)),
    ];
    let mut at_once = paddles();
    let expected = respond(&mut at_once, &events);
    for split in 0..=events.len() {
        let mut axes = paddles();
        let mut commands = respond(&mut axes, &events[..split].to_vec());
        commands.extend(respond(&mut axes, &events[split..].to_vec()));
        assert_eq!(commands, expected);
        assert_eq!(axes, at_once);
    }
}

#[test]
fn every_command_steers_a_paddle_that_is_there_below_the_paddle_width() {
    let mut axes = paddles();
    let keys = [KeyCode::A, KeyCode::Q, KeyCode::L, KeyCode::O, KeyCode::Space, KeyCode::Other(1)];
    let mut events = Vec::new();
    for key in keys {
        events.push(Event::Keyboard(press(key)));
    }
    for key in keys {
        events.push(Event::Keyboard(release(key)));
    }
    let commands = respond(&mut axes, &events);
    assert_eq!(commands.len(), 9);
    for command in commands {
        match command {
            Command::SpawnBall { position } => {
                assert_eq!(position, Point { x: 512, y: 384 });
            }
            Command::Steer { paddle, speed } => {
                assert!(paddle < 2);
                assert!(speed == 10 || speed == 0 || speed == -10);
                assert!(speed.unsigned_abs() < pong::arena::PADDLE_WIDTH);
            }
        }
    }
}
