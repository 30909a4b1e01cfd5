use qone::input::{
    route_key, Key, KeyState, PlayerControl, Routing, WaterProbe, BUTTON_JUMP, JUMP_VELOCITY,
    SWIM_UP_VELOCITY,
};
use qone::types::{CONTENTS_EMPTY, CONTENTS_SOLID, CONTENTS_WATER};

#[test]
fn f_frees_the_camera_and_g_returns_to_the_player() {
    assert_eq!(
        route_key(false, Key::F, KeyState::Pressed),
        Routing { noclip: true, snap_to_camera: false, to_camera: true }
    );
    assert_eq!(
        route_key(true, Key::G, KeyState::Pressed),
        Routing { noclip: false, snap_to_camera: true, to_camera: false }
    );
    assert_eq!(
        route_key(true, Key::W, KeyState::Pressed),
        Routing { noclip: true, snap_to_camera: false, to_camera: true }
    );
    assert_eq!(
        route_key(false, Key::G, KeyState::Released),
        Routing { noclip: false, snap_to_camera: false, to_camera: false }
    );
}

#[test]
fn movement_keys_press_and_release() {
    let mut p = PlayerControl::new();
    p.process_keyboard(Key::W, KeyState::Pressed);
    assert_eq!(p.forward, 1);
    p.process_keyboard(Key::S, KeyState::Pressed);
    assert_eq!(p.forward, -1);
    // releasing W while S steers does not stop the player
    p.process_keyboard(Key::W, KeyState::Released);
    assert_eq!(p.forward, -1);
    p.process_keyboard(Key::S, KeyState::Released);
    assert_eq!(p.forward, 0);
    p.process_keyboard(Key::A, KeyState::Pressed);
    assert_eq!(p.side, -1);
    p.process_keyboard(Key::D, KeyState::Pressed);
    assert_eq!(p.side, 1);
    p.process_keyboard(Key::D, KeyState::Released);
    assert_eq!(p.side, 0);
    p.process_keyboard(Key::Other, KeyState::Pressed);
    assert_eq!(p, PlayerControl { side: 0, ..p });
}

#[test]
fn space_holds_the_jump_bit_only() {
    let mut p = PlayerControl::new();
    p.movement = 1 | 8;
    p.process_keyboard(Key::Space, KeyState::Pressed);
    assert_eq!(p.movement, 1 | 8 | BUTTON_JUMP);
    p.process_keyboard(Key::Space, KeyState::Released);
    assert_eq!(p.movement, 1 | 8);
}

#[test]
fn jumping_from_ground_air_and_water() {
    let mut p = PlayerControl::new();
    p.on_ground = 0;
    assert_eq!(p.jump_button(), Some(JUMP_VELOCITY));
    assert_eq!(p.on_ground, -1);
    assert_eq!(p.movement & BUTTON_JUMP, BUTTON_JUMP);
    // in the air a second press does nothing
    assert_eq!(p.jump_button(), None);
    let mut w = PlayerControl::new();
    w.water_level = 2;
    w.on_ground = 3;
    assert_eq!(w.jump_button(), Some(SWIM_UP_VELOCITY));
    assert_eq!(w.on_ground, -1);
}

#[test]
fn jump_only_while_held() {
    let mut p = PlayerControl::new();
    p.on_ground = 0;
    assert_eq!(p.jump_if_held(), None);
    assert_eq!(p.on_ground, 0);
    p.process_keyboard(Key::Space, KeyState::Pressed);
    assert_eq!(p.jump_if_held(), Some(JUMP_VELOCITY));
    assert_eq!(p.on_ground, -1);
}

#[test]
fn water_depth_by_probes() {
    let mut p = PlayerControl::new();
    let first = p.begin_water_check();
    assert_eq!(first, WaterProbe::Feet);
    assert_eq!((p.water_level, p.water_type), (0, CONTENTS_WATER));
    assert_eq!(p.water_check_step(WaterProbe::Feet, -5), Some(WaterProbe::Waist));
    assert_eq!(p.water_check_step(WaterProbe::Waist, CONTENTS_WATER), Some(WaterProbe::Eyes));
    assert_eq!(p.water_check_step(WaterProbe::Eyes, CONTENTS_EMPTY), None);
    assert_eq!((p.water_level, p.water_type), (2, -5));
    let mut dry = PlayerControl::new();
    dry.begin_water_check();
    assert_eq!(dry.water_check_step(WaterProbe::Feet, CONTENTS_SOLID), None);
    assert_eq!(dry.water_level, 0);
    let mut deep = PlayerControl::new();
    deep.begin_water_check();
    deep.water_check_step(WaterProbe::Feet, CONTENTS_WATER);
    deep.water_check_step(WaterProbe::Waist, CONTENTS_WATER);
    assert_eq!(deep.water_check_step(WaterProbe::Eyes, CONTENTS_WATER), None);
    assert_eq!(deep.water_level, 3);
}

#[test]
fn holding_jump_jumps_once_until_landing() {
    let mut p = PlayerControl::new();
    p.on_ground = 0;
    p.process_keyboard(Key::Space, KeyState::Pressed);
    assert_eq!(p.jump_if_held(), Some(JUMP_VELOCITY));
    assert_eq!(p.on_ground, -1);
    let after_first = p;
    assert_eq!(p.jump_if_held(), None);
    assert_eq!(p, after_first);
    // landing again allows the next jump
    p.on_ground = 0;
    assert_eq!(p.jump_if_held(), Some(JUMP_VELOCITY));
}

#[test]
fn holding_jump_in_deep_water_keeps_swimming_up() {
    let mut p = PlayerControl::new();
    p.water_level = 2;
    p.process_keyboard(Key::Space, KeyState::Pressed);
    assert_eq!(p.jump_if_held(), Some(SWIM_UP_VELOCITY));
    assert_eq!(p.jump_if_held(), Some(SWIM_UP_VELOCITY));
    assert_eq!(p.on_ground, -1);
}

fn measure(feet: i32, waist: i32, eyes: i32) -> PlayerControl {
    let mut p = PlayerControl::new();
    p.on_ground = 4;
    p.forward = 1;
    let mut probe = Some(p.begin_water_check());
    while let Some(at) = probe {
        let c = match at {
            WaterProbe::Feet => feet,
            WaterProbe::Waist => waist,
            WaterProbe::Eyes => eyes,
        };
        probe = p.water_check_step(at, c);
    }
    p
}

#[test]
fn water_level_counts_submerged_probes() {
    let lava = -5;
    let cases = [
        ((CONTENTS_EMPTY, CONTENTS_WATER, CONTENTS_WATER), 0, CONTENTS_WATER),
        ((lava, CONTENTS_EMPTY, CONTENTS_WATER), 1, lava),
        ((CONTENTS_WATER, lava, CONTENTS_SOLID), 2, CONTENTS_WATER),
        ((lava, lava, lava), 3, lava),
    ];
    for ((f, w, e), level, kind) in cases {
        let p = measure(f, w, e);
        assert_eq!(p.water_level, level);
        assert_eq!(p.water_type, kind);
        assert_eq!((p.on_ground, p.forward, p.side, p.movement), (4, 1, 0, 0));
    }
}
