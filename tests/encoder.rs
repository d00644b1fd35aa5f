use firmware::encoder::{Channel, Encoder};

#[test]
fn edge_on_a_then_b_counts_up() {
    let mut enc = Encoder::new();
    assert_eq!(enc.update(Channel::A, true, false), (1, 1));
    assert_eq!(enc.update(Channel::B, true, true), (2, 1));
    assert_eq!(enc.position(), 2);
}

#[test]
fn step_table_for_channel_a() {
    let mut enc = Encoder::new();
    assert_eq!(enc.update(Channel::A, false, false), (-1, -1));
    assert_eq!(enc.update(Channel::A, true, true), (-2, -1));
    assert_eq!(enc.update(Channel::A, false, true), (-1, 1));
    assert_eq!(enc.update(Channel::A, true, false), (0, 1));
}

#[test]
fn step_table_for_channel_b() {
    let mut enc = Encoder::new();
    assert_eq!(enc.update(Channel::B, false, false), (1, 1));
    assert_eq!(enc.update(Channel::B, true, true), (2, 1));
    assert_eq!(enc.update(Channel::B, false, true), (1, -1));
    assert_eq!(enc.update(Channel::B, true, false), (0, -1));
}

#[test]
fn channel_a_sign_follows_level_equality() {
    let mut enc = Encoder::new();
    let samples = [(true, false), (false, true), (true, true), (false, false), (true, false)];
    let mut steps = Vec::new();
    for (a, b) in samples.iter() {
        let (_, step) = enc.update(Channel::A, *a, *b);
        steps.push(step);
    }
    assert_eq!(steps, vec![1, 1, -1, -1, 1]);
    assert_eq!(enc.position(), 1);
}

#[test]
fn new_encoder_starts_at_zero() {
    assert_eq!(Encoder::new().position(), 0);
}
