use relay_board::led::{
    check_hsv, neopixel_levels, FramePart, HsvError, LedAction, LedStep, Rgb, FRAME_BITS,
    FRAME_MS, GREETING_MS, HUES, RAINBOW_SATURATION, RAINBOW_VALUE,
};

#[test]
fn new_keeps_channels() {
    let rgb = Rgb::new(1, 2, 4);
    assert_eq!((rgb.r, rgb.g, rgb.b), (1, 2, 4));
}

#[test]
fn packs_green_red_blue() {
    // The example of the conversion's documentation: (1, 2, 4) is
    // 00000010 00000001 00000100.
    assert_eq!(u32::from(Rgb::new(1, 2, 4)), 0b00000010_00000001_00000100);
    assert_eq!(u32::from(Rgb::new(255, 0, 0)), 0x00ff00);
    assert_eq!(u32::from(Rgb::new(0, 255, 0)), 0xff0000);
    assert_eq!(u32::from(Rgb::new(0, 0, 255)), 0x0000ff);
    assert_eq!(u32::from(Rgb::new(255, 255, 255)), 0xffffff);
}

#[test]
fn hsv_range_is_checked() {
    assert_eq!(check_hsv(360, 100, 100), Ok(()));
    assert_eq!(check_hsv(0, 0, 0), Ok(()));
    assert_eq!(check_hsv(361, 0, 0), Err(HsvError::OutOfRange));
    assert_eq!(check_hsv(0, 101, 0), Err(HsvError::OutOfRange));
    assert_eq!(check_hsv(0, 0, 101), Err(HsvError::OutOfRange));
    assert_eq!(check_hsv(u32::MAX, u32::MAX, u32::MAX), Err(HsvError::OutOfRange));
    assert_eq!(
        HsvError::OutOfRange.message(),
        "The given HSV values are not in valid range"
    );
}

fn frame_value(levels: &[bool]) -> u32 {
    levels.iter().fold(0, |acc, &bit| acc * 2 + bit as u32)
}

#[test]
fn frame_carries_the_colour_most_significant_first() {
    let rgb = Rgb::new(1, 2, 4);
    let levels = neopixel_levels(rgb);
    assert_eq!(levels.len(), FRAME_BITS);
    let expected: Vec<bool> = "000000100000000100000100".chars().map(|c| c == '1').collect();
    assert_eq!(levels, expected);
    assert_eq!(frame_value(&levels), u32::from(rgb));
}

#[test]
fn frame_round_trip() {
    for (r, g, b) in [(0, 0, 0), (255, 255, 255), (25, 25, 25), (51, 0, 0), (18, 52, 86)] {
        let rgb = Rgb::new(r, g, b);
        let levels = neopixel_levels(rgb);
        assert_eq!(frame_value(&levels), u32::from(rgb));
        assert_eq!(frame_value(&levels[0..8]), g as u32);
        assert_eq!(frame_value(&levels[8..16]), r as u32);
        assert_eq!(frame_value(&levels[16..24]), b as u32);
    }
}

#[test]
fn greeting_then_rainbow() {
    let (step, action) = LedStep::Start.next();
    assert_eq!(action, LedAction::Show(Rgb::new(25, 25, 25)));
    let (step, action) = step.next();
    assert_eq!(action, LedAction::Sleep(GREETING_MS));
    assert_eq!(GREETING_MS, 3000);
    assert_eq!(step, LedStep::Rainbow { hue: 0, part: FramePart::Block });
    let (step, action) = step.next();
    assert_eq!(action, LedAction::Block(FRAME_MS));
    let (step, action) = step.next();
    assert_eq!(action, LedAction::Sleep(10));
    let (step, action) = step.next();
    assert_eq!(
        action,
        LedAction::ShowHsv { hue: 0, saturation: 100, value: 20 }
    );
    assert_eq!(step, LedStep::Rainbow { hue: 1, part: FramePart::Block });
}

#[test]
fn rainbow_turns_every_360_frames() {
    let start = LedStep::Rainbow { hue: 7, part: FramePart::Block };
    let mut step = start;
    let mut shown = Vec::new();
    for _ in 0..3 * HUES {
        let (next, action) = step.next();
        if let LedAction::ShowHsv { hue, saturation, value } = action {
            assert_eq!((saturation, value), (RAINBOW_SATURATION, RAINBOW_VALUE));
            shown.push(hue);
        }
        step = next;
    }
    assert_eq!(step, start);
    assert_eq!(shown.len(), 360);
    assert_eq!(shown[0], 7);
    assert_eq!(shown[352], 359);
    assert_eq!(shown[353], 0);
}
