use falling_sand::particle::{
    Cell, ParticleType, Velocity, DISPERSION_RATE, GRAVITY_STEP, SPEED_FLOOR,
};

#[test]
fn constants_have_their_values() {
    assert_eq!(DISPERSION_RATE, 10);
    assert_eq!(SPEED_FLOOR, 3);
    assert_eq!(GRAVITY_STEP, 1);
}

#[test]
fn each_kind_is_made_with_its_velocity() {
    assert_eq!(
        Cell::empty(),
        Cell { particle_type: ParticleType::Empty, velocity: Velocity { x: 0, y: 0 } }
    );
    assert_eq!(
        Cell::sand(),
        Cell { particle_type: ParticleType::Sand, velocity: Velocity { x: 0, y: 1 } }
    );
    assert_eq!(
        Cell::water(),
        Cell { particle_type: ParticleType::Water, velocity: Velocity { x: 10, y: 1 } }
    );
    assert_eq!(
        Cell::stone(),
        Cell { particle_type: ParticleType::Stone, velocity: Velocity { x: 0, y: 0 } }
    );
    assert_eq!(
        Cell::boundary(),
        Cell { particle_type: ParticleType::Boundary, velocity: Velocity { x: 0, y: 0 } }
    );
}

#[test]
fn only_sand_and_water_are_mobile() {
    assert!(ParticleType::Sand.is_mobile());
    assert!(ParticleType::Water.is_mobile());
    assert!(!ParticleType::Empty.is_mobile());
    assert!(!ParticleType::Stone.is_mobile());
    assert!(!ParticleType::Boundary.is_mobile());
}

#[test]
fn matter_is_all_but_space_and_wall() {
    assert!(ParticleType::Sand.is_matter());
    assert!(ParticleType::Water.is_matter());
    assert!(ParticleType::Stone.is_matter());
    assert!(!ParticleType::Empty.is_matter());
    assert!(!ParticleType::Boundary.is_matter());
}

#[test]
fn slow_down_lowers_the_speed_by_one_down_to_the_floor() {
    let with_speed =
        |x: u32| Cell { particle_type: ParticleType::Water, velocity: Velocity { x, y: 1 } };
    assert_eq!(with_speed(10).slow_down(), with_speed(9));
    assert_eq!(with_speed(5).slow_down(), with_speed(4));
    assert_eq!(with_speed(4).slow_down(), with_speed(3));
    assert_eq!(with_speed(3).slow_down(), with_speed(3));
    assert_eq!(with_speed(2).slow_down(), with_speed(2));
    assert_eq!(with_speed(0).slow_down(), with_speed(0));
    assert_eq!(with_speed(u32::MAX).slow_down(), with_speed(u32::MAX - 1));
}

#[test]
fn slow_down_keeps_kind_and_fall_speed() {
    let cell = Cell { particle_type: ParticleType::Sand, velocity: Velocity { x: 8, y: 4 } };
    assert_eq!(
        cell.slow_down(),
        Cell { particle_type: ParticleType::Sand, velocity: Velocity { x: 7, y: 4 } }
    );
}
