use julia::fraction::Fraction;
use julia::schedule::{blend_for, parameter_for, transition_for, Interpolation, ParamPath};

#[test]
fn first_frame_has_zero_blend() {
    for total in [1u32, 2, 10] {
        for mode in [Interpolation::Linear, Interpolation::Circular] {
            assert_eq!(parameter_for(0, total, mode).blend.num, 0);
        }
    }
}

#[test]
fn single_frame_uses_initial_parameter() {
    assert_eq!(parameter_for(0, 1, Interpolation::Linear).path, ParamPath::Initial);
    assert_eq!(parameter_for(0, 1, Interpolation::Circular).path, ParamPath::Initial);
}

#[test]
fn linear_last_frame_reaches_final_parameter() {
    let p = parameter_for(9, 10, Interpolation::Linear);
    assert_eq!(p.path, ParamPath::Line(Fraction::new(9, 9)));
    assert_eq!(p.blend, Fraction::new(9, 10));
}

#[test]
fn circular_frames_orbit() {
    let p = parameter_for(3, 5, Interpolation::Circular);
    assert_eq!(p.path, ParamPath::Orbit(Fraction::new(3, 4)));
}

#[test]
fn blend_and_transition_denominators_differ() {
    assert_eq!(blend_for(2, 4), Fraction::new(2, 4));
    assert_eq!(transition_for(2, 4), Fraction::new(2, 3));
}

#[test]
fn loop_flag_selects_mode() {
    assert_eq!(Interpolation::from_flag(0), Interpolation::Linear);
    assert_eq!(Interpolation::from_flag(1), Interpolation::Circular);
    assert_eq!(Interpolation::from_flag(7), Interpolation::Circular);
}
