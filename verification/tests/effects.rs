use framepipe::chain::{standard_chain, EffectChain};
use framepipe::effect::{
    flip_horizontal, flip_vertical, invert_frame, scale_double, Effect, EffectKind,
};
use framepipe::frame::Frame;

fn frame(width: usize, height: usize, data: Vec<u8>) -> Frame {
    Frame::new(width, height, data).expect("valid frame")
}

#[test]
fn frame_new_accepts_valid_input() {
    let f = frame(2, 1, vec![1, 2, 3, 4, 5, 6]);
    assert_eq!(f.width, 2);
    assert_eq!(f.height, 1);
    assert_eq!(f.data, vec![1, 2, 3, 4, 5, 6]);
}

#[test]
fn frame_new_rejects_zero_width() {
    assert!(Frame::new(0, 1, vec![]).is_none());
}

#[test]
fn frame_new_rejects_zero_height() {
    assert!(Frame::new(1, 0, vec![1, 2, 3]).is_none());
}

#[test]
fn frame_new_rejects_wrong_buffer_length() {
    assert!(Frame::new(1, 1, vec![1, 2]).is_none());
    assert!(Frame::new(1, 1, vec![1, 2, 3, 4]).is_none());
}

#[test]
fn invert_negates_every_sample() {
    let f = frame(1, 1, vec![10, 20, 30]);
    let r = invert_frame(f);
    assert_eq!(r.width, 1);
    assert_eq!(r.height, 1);
    assert_eq!(r.data, vec![245, 235, 225]);
}

#[test]
fn invert_twice_restores_the_frame() {
    let f = frame(2, 2, vec![0, 1, 2, 3, 4, 5, 6, 7, 8, 9, 10, 255]);
    let r = invert_frame(invert_frame(f));
    assert_eq!(r.data, vec![0, 1, 2, 3, 4, 5, 6, 7, 8, 9, 10, 255]);
}

#[test]
fn flip_horizontal_reverses_each_row() {
    let f = frame(2, 1, vec![1, 2, 3, 4, 5, 6]);
    let r = flip_horizontal(f);
    assert_eq!((r.width, r.height), (2, 1));
    assert_eq!(r.data, vec![4, 5, 6, 1, 2, 3]);
}

#[test]
fn flip_vertical_reverses_the_rows() {
    let f = frame(1, 2, vec![1, 2, 3, 4, 5, 6]);
    let r = flip_vertical(f);
    assert_eq!((r.width, r.height), (1, 2));
    assert_eq!(r.data, vec![4, 5, 6, 1, 2, 3]);
}

#[test]
fn flip_vertical_keeps_columns_in_place() {
    // 2x2 pixels: A B / C D becomes C D / A B.
    let f = frame(2, 2, vec![1, 1, 1, 2, 2, 2, 3, 3, 3, 4, 4, 4]);
    let r = flip_vertical(f);
    assert_eq!(r.data, vec![3, 3, 3, 4, 4, 4, 1, 1, 1, 2, 2, 2]);
}

#[test]
fn scale_doubles_both_dimensions() {
    let f = frame(3, 2, vec![7; 18]);
    let r = scale_double(f);
    assert_eq!((r.width, r.height), (6, 4));
    assert_eq!(r.data.len(), 6 * 4 * 3);
}

#[test]
fn scale_replicates_each_pixel_into_a_block() {
    // 2x1 pixels: A B becomes A A B B / A A B B.
    let f = frame(2, 1, vec![1, 2, 3, 4, 5, 6]);
    let r = scale_double(f);
    assert_eq!((r.width, r.height), (4, 2));
    let row = vec![1, 2, 3, 1, 2, 3, 4, 5, 6, 4, 5, 6];
    let mut expected = row.clone();
    expected.extend(row);
    assert_eq!(r.data, expected);
}

#[test]
fn new_effect_starts_disabled() {
    let e = Effect::new("Invert".to_owned(), EffectKind::Invert);
    assert!(!e.enabled);
    assert_eq!(e.kind, EffectKind::Invert);
    assert_eq!(e.name, "Invert");
}

#[test]
fn toggle_twice_round_trips() {
    let mut e = Effect::new("Scale".to_owned(), EffectKind::Scale);
    let before = e.enabled;
    e.toggle();
    assert_eq!(e.enabled, !before);
    e.toggle();
    assert_eq!(e.enabled, before);
}

#[test]
fn chain_toggle_twice_round_trips() {
    let mut chain = standard_chain();
    assert!(!chain.is_enabled(2));
    chain.toggle(2);
    assert!(chain.is_enabled(2));
    chain.toggle(2);
    assert!(!chain.is_enabled(2));
}

#[test]
fn all_disabled_chain_is_identity() {
    let chain = standard_chain();
    let f = frame(2, 2, vec![9, 8, 7, 6, 5, 4, 3, 2, 1, 0, 128, 255]);
    let r = chain.run_all(f);
    assert_eq!((r.width, r.height), (2, 2));
    assert_eq!(r.data, vec![9, 8, 7, 6, 5, 4, 3, 2, 1, 0, 128, 255]);
}

#[test]
fn enabled_invert_runs_through_the_chain() {
    let mut chain = standard_chain();
    chain.toggle(0);
    let f = frame(1, 1, vec![0, 100, 200]);
    let r = chain.run_all(f);
    assert_eq!(r.data, vec![255, 155, 55]);
}

#[test]
fn flip_then_invert_equals_invert_then_flip() {
    let data = vec![11, 22, 33, 44, 55, 66, 77, 88, 99, 110, 121, 132];
    let mut flip_first = EffectChain::new(vec![
        Effect::new("Horizontal flip".to_owned(), EffectKind::FlipHorizontal),
        Effect::new("Invert".to_owned(), EffectKind::Invert),
    ]);
    flip_first.toggle(0);
    flip_first.toggle(1);
    let mut invert_first = EffectChain::new(vec![
        Effect::new("Invert".to_owned(), EffectKind::Invert),
        Effect::new("Horizontal flip".to_owned(), EffectKind::FlipHorizontal),
    ]);
    invert_first.toggle(0);
    invert_first.toggle(1);
    let a = flip_first.run_all(frame(2, 2, data.clone()));
    let b = invert_first.run_all(frame(2, 2, data));
    assert_eq!(a.data, b.data);
    assert_eq!((a.width, a.height), (b.width, b.height));
}

#[test]
fn chain_applies_effects_in_order() {
    // Scale then invert: 1x1 becomes 2x2, every sample negated.
    let mut chain = EffectChain::new(vec![
        Effect::new("Scale".to_owned(), EffectKind::Scale),
        Effect::new("Invert".to_owned(), EffectKind::Invert),
    ]);
    chain.toggle(0);
    chain.toggle(1);
    let r = chain.run_all(frame(1, 1, vec![10, 20, 30]));
    assert_eq!((r.width, r.height), (2, 2));
    assert_eq!(r.data, vec![245, 235, 225, 245, 235, 225, 245, 235, 225, 245, 235, 225]);
}
