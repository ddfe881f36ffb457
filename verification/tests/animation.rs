use pixgine::animation::{advance_frame, FrameStep};

#[test]
fn advance_to_next_frame() {
    assert_eq!(advance_frame(0, 3, false), FrameStep { frame: 1, playing: true });
}

#[test]
fn looping_wraps_to_first_frame() {
    assert_eq!(advance_frame(2, 3, true), FrameStep { frame: 0, playing: true });
}

#[test]
fn non_looping_stops_on_last_frame() {
    assert_eq!(advance_frame(2, 3, false), FrameStep { frame: 2, playing: false });
    assert_eq!(advance_frame(0, 1, false), FrameStep { frame: 0, playing: false });
}

#[test]
fn looping_cycles_through_every_frame() {
    let mut f = 0usize;
    for k in 1..=10usize {
        f = advance_frame(f, 4, true).frame;
        assert_eq!(f, k % 4);
    }
}
