use labolabo_app::motion::{advance_dot, reduce_motion_from, unified_dot_params, DotAnimState};

// MARK: - advance_dot

#[test]
fn advance_dot_records_no_transition_when_unchanged() {
    let mut anim = DotAnimState::default();
    let first = advance_dot(&mut anim, Some(0x30d158));
    let second = advance_dot(&mut anim, Some(0x30d158));
    assert_eq!(first.generation, second.generation);
    assert_eq!(second.to, Some(0x30d158));
}

#[test]
fn advance_dot_bumps_generation_on_change() {
    let mut anim = DotAnimState::default();
    let first = advance_dot(&mut anim, Some(0x30d158));
    let second = advance_dot(&mut anim, Some(0xffd60a));
    assert_ne!(first.generation, second.generation);
    assert_eq!(second.from, Some(0x30d158));
    assert_eq!(second.to, Some(0xffd60a));
}

#[test]
fn advance_dot_from_none_target_with_no_history_is_a_no_op() {
    let mut anim = DotAnimState::default();
    let frame = advance_dot(&mut anim, None);
    assert_eq!(frame.from, None);
    assert_eq!(frame.to, None);
}

#[test]
fn advance_dot_tracks_a_fade_out_transition() {
    let mut anim = DotAnimState::default();
    advance_dot(&mut anim, Some(0x30d158));
    let faded = advance_dot(&mut anim, None);
    assert_eq!(faded.from, Some(0x30d158));
    assert_eq!(faded.to, None);
}

#[test]
fn advance_dot_generation_wraps_around() {
    let mut anim = DotAnimState {
        shown: None,
        from: None,
        generation: u64::MAX,
    };
    let frame = advance_dot(&mut anim, Some(1));
    assert_eq!(frame.generation, 0);
}

// MARK: - unified_dot_params

#[test]
fn unified_dot_params_ring_always_tracks_custom_color_regardless_of_status() {
    assert_eq!(unified_dot_params(None, Some(0x30d158)).ring_color, Some(0x30d158));
    assert_eq!(
        unified_dot_params(Some(0xffd60a), Some(0x30d158)).ring_color,
        Some(0x30d158)
    );
}

#[test]
fn unified_dot_params_no_custom_color_means_no_ring() {
    assert_eq!(unified_dot_params(Some(0xffd60a), None).ring_color, None);
    assert_eq!(unified_dot_params(None, None).ring_color, None);
}

#[test]
fn unified_dot_params_fill_always_tracks_status_regardless_of_custom_color() {
    assert_eq!(
        unified_dot_params(Some(0xffd60a), Some(0x30d158)).fill_target,
        Some(0xffd60a)
    );
    assert_eq!(unified_dot_params(None, Some(0x30d158)).fill_target, None);
}

// MARK: - reduce_motion

#[test]
fn reduce_motion_is_false_when_unset() {
    assert!(!reduce_motion_from(None));
}

#[test]
fn reduce_motion_is_true_only_for_the_literal_string_one() {
    assert!(reduce_motion_from(Some("1".to_string())));
    assert!(!reduce_motion_from(Some("0".to_string())));
    assert!(!reduce_motion_from(Some("true".to_string())));
    assert!(!reduce_motion_from(Some("".to_string())));
}
