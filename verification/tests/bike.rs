use bike::bike::{Bike, Brake, Controls, Direction, Input, Jump, WheelInput};
use bike::level::{CollisionInfo, PolygonType};

fn idle() -> Input {
    Input { toggle_dir: false, wheel: WheelInput::Coast, jump: None }
}

fn wall() -> Option<CollisionInfo> {
    Some(CollisionInfo { tpe: PolygonType::Wall, index: 0, dist: 3 })
}

fn lava() -> Option<CollisionInfo> {
    Some(CollisionInfo { tpe: PolygonType::Lava, index: 0, dist: 3 })
}

#[test]
fn new_bike_faces_right_and_is_alive() {
    let bike = Bike::new();
    assert!(bike.alive);
    assert!(!bike.breaking);
    assert_eq!(bike.dir, Direction::Right);
    assert!(!bike.prev_toggle_dir);
    assert_eq!(bike.jump, None);
}

#[test]
fn direction_helpers() {
    assert_eq!(Direction::default(), Direction::Right);
    assert_eq!(Direction::Right.flip(), Direction::Left);
    assert_eq!(Direction::Left.flip(), Direction::Right);
    assert_eq!(Direction::Right.driven_wheel(), 0);
    assert_eq!(Direction::Left.driven_wheel(), 1);
    assert_eq!(Direction::Right.sign(), 1);
    assert_eq!(Direction::Left.sign(), -1);
}

#[test]
fn idle_input_changes_nothing() {
    let mut bike = Bike::new();
    let controls = bike.update(&idle(), [true, true]);
    assert_eq!(
        controls,
        Controls { dir: Direction::Right, brake: Brake::Off, gas: false, jump: None }
    );
    assert!(bike.alive);
    assert_eq!(bike.dir, Direction::Right);
    assert!(!bike.breaking);
    assert_eq!(bike.jump, None);
}

#[test]
fn facing_turns_when_the_key_goes_down_and_not_while_it_is_held() {
    let mut bike = Bike::new();
    let held = Input { toggle_dir: true, ..idle() };
    assert_eq!(bike.update(&held, [true, true]).dir, Direction::Left);
    assert_eq!(bike.update(&held, [true, true]).dir, Direction::Left);
    assert_eq!(bike.update(&held, [true, true]).dir, Direction::Left);
    assert_eq!(bike.update(&idle(), [true, true]).dir, Direction::Left);
    assert_eq!(bike.update(&held, [true, true]).dir, Direction::Right);
    assert_eq!(bike.update(&idle(), [true, true]).dir, Direction::Right);
    assert_eq!(bike.dir, Direction::Right);
}

#[test]
fn brake_engages_then_holds_then_opens() {
    let mut bike = Bike::new();
    let braking = Input { wheel: WheelInput::Brake, ..idle() };
    assert_eq!(bike.update(&braking, [true, true]).brake, Brake::Engage);
    assert!(bike.breaking);
    assert_eq!(bike.update(&braking, [true, true]).brake, Brake::Hold);
    assert_eq!(bike.update(&braking, [true, true]).brake, Brake::Hold);
    assert_eq!(bike.update(&idle(), [true, true]).brake, Brake::Off);
    assert!(!bike.breaking);
    assert_eq!(bike.update(&braking, [true, true]).brake, Brake::Engage);
    let gas = Input { wheel: WheelInput::Accelerate, ..idle() };
    assert_eq!(bike.update(&gas, [true, true]).brake, Brake::Off);
    assert!(!bike.breaking);
}

#[test]
fn braking_gives_no_gas() {
    let mut bike = Bike::new();
    let braking = Input { wheel: WheelInput::Brake, ..idle() };
    assert!(!bike.update(&braking, [true, true]).gas);
    assert!(!bike.update(&idle(), [true, true]).gas);
}

#[test]
fn gas_drives_the_rear_wheel_below_the_top_speed() {
    let mut bike = Bike::new();
    let gas = Input { wheel: WheelInput::Accelerate, ..idle() };
    assert!(bike.update(&gas, [true, false]).gas);
    assert!(!bike.update(&gas, [false, true]).gas);
    assert!(!bike.update(&gas, [false, false]).gas);
    assert!(bike.update(&gas, [true, true]).gas);

    let turn = Input { toggle_dir: true, wheel: WheelInput::Accelerate, jump: None };
    let controls = bike.update(&turn, [true, false]);
    assert_eq!(controls.dir, Direction::Left);
    assert!(!controls.gas);
    assert!(bike.update(&turn, [false, true]).gas);
}

#[test]
fn gas_is_cut_while_the_driven_wheel_is_at_the_top_speed() {
    let mut bike = Bike::new();
    let gas = Input { wheel: WheelInput::Accelerate, ..idle() };
    for step in 0..100 {
        let below = step % 3 != 0;
        let controls = bike.update(&gas, [below, true]);
        assert_eq!(controls.gas, below);
    }
}

#[test]
fn jump_starts_from_rest_in_the_direction_of_the_key() {
    let mut bike = Bike::new();
    let right = Input { jump: Some(Direction::Right), ..idle() };
    let controls = bike.update(&right, [true, true]);
    assert_eq!(controls.jump, Some(Direction::Right));
    assert_eq!(bike.jump, Some(Jump { dir: Direction::Right }));

    let mut bike = Bike::new();
    let left = Input { jump: Some(Direction::Left), ..idle() };
    assert_eq!(bike.update(&left, [true, true]).jump, Some(Direction::Left));
    assert_eq!(bike.jump, Some(Jump { dir: Direction::Left }));
}

#[test]
fn no_jump_starts_while_a_jump_is_on_its_way() {
    let mut bike = Bike::new();
    let right = Input { jump: Some(Direction::Right), ..idle() };
    let left = Input { jump: Some(Direction::Left), ..idle() };
    assert_eq!(bike.update(&right, [true, true]).jump, Some(Direction::Right));
    assert_eq!(bike.update(&right, [true, true]).jump, None);
    assert_eq!(bike.update(&left, [true, true]).jump, None);
    assert_eq!(bike.jump, Some(Jump { dir: Direction::Right }));
    assert_eq!(bike.advance_jump(false, false), None);
    assert_eq!(bike.update(&left, [true, true]).jump, None);
    assert_eq!(bike.jump, Some(Jump { dir: Direction::Right }));
}

#[test]
fn jump_is_pushed_back_once_and_ends_after_the_pause() {
    let mut bike = Bike::new();
    let left = Input { jump: Some(Direction::Left), ..idle() };
    bike.update(&left, [true, true]);
    assert_eq!(bike.advance_jump(false, false), None);
    assert_eq!(bike.jump, Some(Jump { dir: Direction::Left }));
    assert_eq!(bike.advance_jump(true, false), Some(Direction::Left));
    assert_eq!(bike.jump, Some(Jump { dir: Direction::Left }));
    assert_eq!(bike.advance_jump(false, false), None);
    assert_eq!(bike.advance_jump(false, true), None);
    assert_eq!(bike.jump, None);

    let right = Input { jump: Some(Direction::Right), ..idle() };
    assert_eq!(bike.update(&right, [true, true]).jump, Some(Direction::Right));
    assert_eq!(bike.jump, Some(Jump { dir: Direction::Right }));
}

#[test]
fn jump_clock_in_one_long_substep() {
    let mut bike = Bike::new();
    bike.update(&Input { jump: Some(Direction::Right), ..idle() }, [true, true]);
    assert_eq!(bike.advance_jump(true, true), Some(Direction::Right));
    assert_eq!(bike.jump, None);
}

#[test]
fn jump_clock_without_a_jump_does_nothing() {
    let mut bike = Bike::new();
    assert_eq!(bike.advance_jump(true, true), None);
    assert_eq!(bike.advance_jump(true, false), None);
    assert_eq!(bike.advance_jump(false, true), None);
    assert_eq!(bike.jump, None);
    assert!(bike.alive);
    assert_eq!(bike.dir, Direction::Right);
}

#[test]
fn wheel_on_lava_destroys_the_bike() {
    let mut bike = Bike::new();
    assert!(bike.wheel_contact(&lava(), true));
    assert!(!bike.alive);

    let mut bike = Bike::new();
    assert!(!bike.wheel_contact(&lava(), false));
    assert!(!bike.alive);
}

#[test]
fn wheel_on_a_wall_rolls_when_it_moves_into_it() {
    let mut bike = Bike::new();
    assert!(bike.wheel_contact(&wall(), true));
    assert!(bike.alive);
    assert!(!bike.wheel_contact(&wall(), false));
    assert!(bike.alive);
}

#[test]
fn wheel_in_the_air_flies_freely() {
    let mut bike = Bike::new();
    assert!(!bike.wheel_contact(&None, true));
    assert!(!bike.wheel_contact(&None, false));
    assert!(bike.alive);
}

#[test]
fn head_on_anything_destroys_the_bike() {
    let mut bike = Bike::new();
    bike.head_contact(&None);
    assert!(bike.alive);
    bike.head_contact(&wall());
    assert!(!bike.alive);

    let mut bike = Bike::new();
    bike.head_contact(&lava());
    assert!(!bike.alive);
}

#[test]
fn a_destroyed_bike_stays_destroyed() {
    let mut bike = Bike::new();
    bike.wheel_contact(&lava(), true);
    assert!(!bike.alive);
    bike.wheel_contact(&wall(), true);
    bike.wheel_contact(&None, false);
    bike.head_contact(&None);
    bike.update(&Input { toggle_dir: true, wheel: WheelInput::Accelerate, jump: None }, [true, true]);
    bike.advance_jump(true, true);
    assert!(!bike.alive);
}

#[test]
fn contacts_leave_the_controls_alone() {
    let mut bike = Bike::new();
    let input = Input { toggle_dir: true, wheel: WheelInput::Brake, jump: Some(Direction::Left) };
    bike.update(&input, [true, true]);
    bike.wheel_contact(&lava(), true);
    bike.head_contact(&wall());
    assert_eq!(bike.dir, Direction::Left);
    assert!(bike.breaking);
    assert!(bike.prev_toggle_dir);
    assert_eq!(bike.jump, Some(Jump { dir: Direction::Left }));
}

#[test]
fn all_controls_in_one_substep() {
    let mut bike = Bike::new();
    let input =
        Input { toggle_dir: true, wheel: WheelInput::Accelerate, jump: Some(Direction::Right) };
    let controls = bike.update(&input, [false, true]);
    assert_eq!(
        controls,
        Controls {
            dir: Direction::Left,
            brake: Brake::Off,
            gas: true,
            jump: Some(Direction::Right)
        }
    );
}

#[test]
fn default_bike_is_not_in_play() {
    let bike = Bike::default();
    assert!(!bike.alive);
    assert!(!bike.breaking);
    assert_eq!(bike.dir, Direction::Right);
    assert!(!bike.prev_toggle_dir);
    assert_eq!(bike.jump, None);
}

#[test]
fn keys_for_the_wheels() {
    let wheel = |brake, gas| Input::from_keys(false, brake, gas, false, false).wheel;
    assert_eq!(wheel(false, false), WheelInput::Coast);
    assert_eq!(wheel(true, false), WheelInput::Brake);
    assert_eq!(wheel(false, true), WheelInput::Accelerate);
    assert_eq!(wheel(true, true), WheelInput::Coast);
}

#[test]
fn keys_for_the_jump() {
    let jump = |left, right| Input::from_keys(false, false, false, left, right).jump;
    assert_eq!(jump(false, false), None);
    assert_eq!(jump(true, false), Some(Direction::Left));
    assert_eq!(jump(false, true), Some(Direction::Right));
    assert_eq!(jump(true, true), None);
}

#[test]
fn keys_do_not_mix() {
    let input = Input::from_keys(true, false, true, true, false);
    assert!(input.toggle_dir);
    assert_eq!(input.wheel, WheelInput::Accelerate);
    assert_eq!(input.jump, Some(Direction::Left));
    let input = Input::from_keys(false, true, false, false, true);
    assert!(!input.toggle_dir);
    assert_eq!(input.wheel, WheelInput::Brake);
    assert_eq!(input.jump, Some(Direction::Right));
}
