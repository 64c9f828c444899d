use vstd::prelude::*;
use vstd::arithmetic::div_mod::{lemma_div_denominator, lemma_mod_breakdown};
use vstd::arithmetic::power2::{lemma2_to64, lemma_pow2_pos, lemma_pow2_unfold, pow2};
use vstd::bits::lemma_u32_shr_is_div;

verus! {

/// A colour of the on-board addressable LED, one byte per channel.
#[derive(Clone, Copy, Debug, PartialEq, Eq, Structural)]
pub struct Rgb {
    pub r: u8,
    pub g: u8,
    pub b: u8,
}

/// The reason why an HSV colour was refused.
#[derive(Clone, Copy, Debug, PartialEq, Eq, Structural)]
pub enum HsvError {
    /// Hue above 360, or saturation or value above 100.
    OutOfRange,
}

impl HsvError {
    /// The text that describes the error.
    pub fn message(&self) -> (m: &'static str)
        ensures
            m@ == "The given HSV values are not in valid range"@,
    {
        "The given HSV values are not in valid range"
    }
}

/// Hue in degrees `0..=360`, saturation and value in percent `0..=100`: the
/// colours that the conversion to RGB accepts.
pub open spec fn hsv_in_range(h: u32, s: u32, v: u32) -> bool {
    h <= 360 && s <= 100 && v <= 100
}

impl Rgb {
    pub fn new(r: u8, g: u8, b: u8) -> (rgb: Self)
        ensures
            rgb == (Rgb { r, g, b }),
    {
        Self { r, g, b }
    }
}

/// The check that opens the HSV to RGB conversion: hue at most 360,
/// saturation and value at most 100.
pub fn check_hsv(h: u32, s: u32, v: u32) -> (result: Result<(), HsvError>)
    ensures
        hsv_in_range(h, s, v) ==> result == Ok::<(), HsvError>(()),
        !hsv_in_range(h, s, v) ==> result == Err::<(), HsvError>(HsvError::OutOfRange),
{
    if h > 360 || s > 100 || v > 100 {
        return Err(HsvError::OutOfRange);
    }
    Ok(())
}

/// The 24-bit colour word that the LED expects: green in bits 16..24, red in
/// bits 8..16, blue in bits 0..8.
pub open spec fn packed_color(rgb: Rgb) -> u32 {
    (rgb.g * 65536 + rgb.r * 256 + rgb.b) as u32
}

impl From<Rgb> for u32 {
    /// Convert RGB to u32 color value
    ///
    /// e.g. rgb: (1,2,4)
    /// G        R        B
    /// 7      0 7      0 7      0
    /// 00000010 00000001 00000100
    fn from(rgb: Rgb) -> (color: u32) {
        let g: u32 = rgb.g as u32;
        let r: u32 = rgb.r as u32;
        let b: u32 = rgb.b as u32;
        let color: u32 = (g << 16) | (r << 8) | b;
        assert(color == g * 65536 + r * 256 + b) by (bit_vector)
            requires
                color == (g << 16) | (r << 8) | b,
                g < 256,
                r < 256,
                b < 256,
        ;
        color
    }
}

impl vstd::std_specs::convert::FromSpecImpl<Rgb> for u32 {
    open spec fn obeys_from_spec() -> bool {
        true
    }

    open spec fn from_spec(rgb: Rgb) -> u32 {
        packed_color(rgb)
    }
}

/// Number of bits in one LED frame.
pub const FRAME_BITS: usize = 24;

/// The bit of `color` that the `k`-th pulse of a frame carries: frames are
/// sent most significant bit first, starting at bit 23.
pub open spec fn frame_bit(color: u32, k: int) -> bool {
    (color as nat / pow2((23 - k) as nat)) % 2 == 1
}

/// The number that a sequence of levels spells, first level most significant.
pub open spec fn frame_value(levels: Seq<bool>) -> nat
    decreases levels.len(),
{
    if levels.len() == 0 {
        0
    } else {
        2 * frame_value(levels.drop_last()) + if levels.last() {
            1nat
        } else {
            0nat
        }
    }
}

/// One step of the frame value: a level appended doubles what came before.
proof fn lemma_frame_value_push(levels: Seq<bool>, bit: bool)
    ensures
        frame_value(levels.push(bit)) == 2 * frame_value(levels) + if bit {
            1nat
        } else {
            0nat
        },
{
    assert(levels.push(bit).drop_last() =~= levels);
}

/// After the top `n` bits of `color` were emitted, their value is the next
/// bit appended to the value of the top `n - 1` bits.
proof fn lemma_top_bits_step(color: nat, i: nat)
    requires
        i < 24,
    ensures
        (color / pow2(i)) % pow2((24 - i) as nat) == 2 * ((color / pow2(i + 1)) % pow2(
            (23 - i) as nat,
        )) + (color / pow2(i)) % 2,
{
    lemma_pow2_pos(i);
    lemma_pow2_pos((23 - i) as nat);
    lemma_pow2_unfold(i + 1);
    lemma_pow2_unfold((24 - i) as nat);
    let q = color / pow2(i);
    lemma_div_denominator(color as int, pow2(i) as int, 2);
    assert(pow2(i + 1) == pow2(i) * 2);
    assert(color / pow2(i + 1) == q / 2);
    lemma_mod_breakdown(q as int, 2, pow2((23 - i) as nat) as int);
    assert(pow2((24 - i) as nat) == 2 * pow2((23 - i) as nat));
}

/// Splitting a frame: the levels of `a` followed by those of `b` spell the
/// value of `a` shifted past `b`, plus the value of `b`.
proof fn lemma_frame_value_concat(a: Seq<bool>, b: Seq<bool>)
    ensures
        frame_value(a + b) == frame_value(a) * pow2(b.len()) + frame_value(b),
    decreases b.len(),
{
    if b.len() == 0 {
        assert(a + b =~= a);
        lemma2_to64();
        assert(b.len() == 0nat);
        assert(pow2(b.len()) == 1);
        assert(frame_value(a) * pow2(b.len()) == frame_value(a)) by (nonlinear_arith)
            requires
                pow2(b.len()) == 1,
        ;
    } else {
        let rest = b.drop_last();
        lemma_frame_value_concat(a, rest);
        assert((a + b).drop_last() =~= a + rest);
        assert((a + b).last() == b.last());
        lemma_pow2_unfold(b.len());
        assert(pow2(b.len()) == 2 * pow2(rest.len()));
        assert(frame_value(a) * pow2(b.len()) == 2 * (frame_value(a) * pow2(rest.len()))) by (nonlinear_arith)
            requires
                pow2(b.len()) == 2 * pow2(rest.len()),
        ;
        let bit: nat = if b.last() {
            1
        } else {
            0
        };
        assert(frame_value(b) == 2 * frame_value(rest) + bit);
        assert(frame_value(a + b) == 2 * frame_value(a + rest) + bit);
    }
}

/// A frame of `n` levels spells a number below `2^n`.
proof fn lemma_frame_value_bound(levels: Seq<bool>)
    ensures
        frame_value(levels) < pow2(levels.len()),
    decreases levels.len(),
{
    if levels.len() == 0 {
        lemma2_to64();
    } else {
        lemma_frame_value_bound(levels.drop_last());
        lemma_pow2_unfold(levels.len());
    }
}

/// The frame sends the colour's bytes green, red, blue: its first eight
/// levels spell the green byte, the next eight the red one and the last
/// eight the blue one.
pub proof fn lemma_frame_bytes(rgb: Rgb, levels: Seq<bool>)
    requires
        levels.len() == FRAME_BITS,
        frame_value(levels) == packed_color(rgb),
    ensures
        frame_value(levels.subrange(0, 8)) == rgb.g,
        frame_value(levels.subrange(8, 16)) == rgb.r,
        frame_value(levels.subrange(16, 24)) == rgb.b,
{
    let green = levels.subrange(0, 8);
    let red = levels.subrange(8, 16);
    let blue = levels.subrange(16, 24);
    assert(levels =~= green + red + blue);
    lemma2_to64();
    lemma_frame_value_concat(green, red);
    lemma_frame_value_concat(green + red, blue);
    lemma_frame_value_bound(green);
    lemma_frame_value_bound(red);
    lemma_frame_value_bound(blue);
    let fg = frame_value(green) as int;
    let fr = frame_value(red) as int;
    let fb = frame_value(blue) as int;
    let high = fg * 256 + fr;
    assert(packed_color(rgb) == rgb.g * 65536 + rgb.r * 256 + rgb.b);
    assert(frame_value(levels) == high * 256 + fb);
    vstd::arithmetic::div_mod::lemma_fundamental_div_mod_converse(
        packed_color(rgb) as int,
        256,
        high,
        fb,
    );
    vstd::arithmetic::div_mod::lemma_fundamental_div_mod_converse(
        packed_color(rgb) as int,
        256,
        rgb.g * 256 + rgb.r,
        rgb.b as int,
    );
    vstd::arithmetic::div_mod::lemma_fundamental_div_mod_converse(high, 256, fg, fr);
    vstd::arithmetic::div_mod::lemma_fundamental_div_mod_converse(
        high,
        256,
        rgb.g as int,
        rgb.r as int,
    );
}

/// The levels of the frame that shows `rgb`: for each of the 24 bits of the
/// packed colour, most significant first, whether it is a one.
pub fn neopixel_levels(rgb: Rgb) -> (levels: Vec<bool>)
    ensures
        levels.len() == FRAME_BITS,
        forall|k: int| 0 <= k < 24 ==> levels@[k] == frame_bit(packed_color(rgb), k),
        frame_value(levels@) == packed_color(rgb),
{
    let color: u32 = u32::from(rgb);
    let mut levels: Vec<bool> = Vec::new();
    let mut i: u32 = 24;
    proof {
        lemma2_to64();
    }
    while i > 0
        invariant
            i <= 24,
            color == packed_color(rgb),
            levels.len() == 24 - i,
            forall|k: int| 0 <= k < levels.len() ==> levels@[k] == frame_bit(color, k),
            frame_value(levels@) == (color as nat / pow2(i as nat)) % pow2((24 - i) as nat),
        decreases i,
    {
        i = i - 1;
        let shifted: u32 = color >> i;
        let bit: bool = shifted & 1 == 1;
        proof {
            lemma_u32_shr_is_div(color, i);
            assert(shifted & 1 == shifted % 2) by (bit_vector);
            lemma_top_bits_step(color as nat, i as nat);
            lemma_frame_value_push(levels@, bit);
        }
        levels.push(bit);
    }
    proof {
        lemma2_to64();
        assert(color as nat / 1 == color);
        assert(packed_color(rgb) < 16777216);
    }
    levels
}

/// A request to flash the LED for so many milliseconds: `Ok` for a request
/// that was served, `Err` for one that was refused.
pub type Request = Result<u64, u64>;

/// The colour shown first: white at 10% brightness.
pub open spec fn greeting() -> Rgb {
    Rgb { r: 25, g: 25, b: 25 }
}

/// How long the greeting stays, in milliseconds.
pub const GREETING_MS: u64 = 3000;

/// The pause before each rainbow frame, in milliseconds; it is taken once
/// blocking the task and once yielding to the runtime.
pub const FRAME_MS: u32 = 10;

/// Saturation of the rainbow, in percent.
pub const RAINBOW_SATURATION: u32 = 100;

/// Value (brightness) of the rainbow, in percent.
pub const RAINBOW_VALUE: u32 = 20;

/// Number of hues in one turn of the rainbow.
pub const HUES: u32 = 360;

/// Which part of a rainbow frame is due next.
#[derive(Clone, Copy, Debug, PartialEq, Eq, Structural)]
pub enum FramePart {
    /// The blocking pause.
    Block,
    /// The pause that yields to the runtime.
    Sleep,
    /// Showing the frame's colour.
    Show,
}

/// Where the LED task stands.
#[derive(Clone, Copy, Debug, PartialEq, Eq, Structural)]
pub enum LedStep {
    /// Nothing shown yet.
    Start,
    /// The greeting is shown and must stay.
    Greeting,
    /// Cycling through the hues; `hue` is the hue of the current frame.
    Rainbow { hue: u32, part: FramePart },
}

/// What the LED task must do before it asks for the next step.
#[derive(Clone, Copy, Debug, PartialEq, Eq, Structural)]
pub enum LedAction {
    /// Send this colour to the LED.
    Show(Rgb),
    /// Send the colour of this hue, saturation and value to the LED.
    ShowHsv { hue: u32, saturation: u32, value: u32 },
    /// Block the task for so many milliseconds.
    Block(u32),
    /// Yield to the runtime for so many milliseconds.
    Sleep(u64),
}

impl LedStep {
    /// A rainbow step always holds a hue of the turn.
    pub open spec fn wf(self) -> bool {
        match self {
            LedStep::Rainbow { hue, .. } => hue < HUES,
            _ => true,
        }
    }

    /// The step that follows and the action that leads to it.
    pub open spec fn transition(self) -> (LedStep, LedAction) {
        match self {
            LedStep::Start => (LedStep::Greeting, LedAction::Show(greeting())),
            LedStep::Greeting => (
                LedStep::Rainbow { hue: 0, part: FramePart::Block },
                LedAction::Sleep(GREETING_MS),
            ),
            LedStep::Rainbow { hue, part } => match part {
                FramePart::Block => (
                    LedStep::Rainbow { hue, part: FramePart::Sleep },
                    LedAction::Block(FRAME_MS),
                ),
                FramePart::Sleep => (
                    LedStep::Rainbow { hue, part: FramePart::Show },
                    LedAction::Sleep(FRAME_MS as u64),
                ),
                FramePart::Show => (
                    LedStep::Rainbow { hue: ((hue + 1) % HUES as int) as u32, part: FramePart::Block },
                    LedAction::ShowHsv {
                        hue,
                        saturation: RAINBOW_SATURATION,
                        value: RAINBOW_VALUE,
                    },
                ),
            },
        }
    }

    /// The step reached from `self` after `n` steps.
    pub open spec fn after(self, n: nat) -> LedStep
        decreases n,
    {
        if n == 0 {
            self
        } else {
            self.transition().0.after((n - 1) as nat)
        }
    }

    /// Advances the LED task by one step: three seconds of white at 10%
    /// brightness, then an endless rainbow at 20% brightness, one hue per frame.
    pub fn next(self) -> (result: (LedStep, LedAction))
        requires
            self.wf(),
        ensures
            result == self.transition(),
            result.0.wf(),
    {
        match self {
            LedStep::Start => (LedStep::Greeting, LedAction::Show(Rgb::new(25, 25, 25))),
            LedStep::Greeting => (
                LedStep::Rainbow { hue: 0, part: FramePart::Block },
                LedAction::Sleep(GREETING_MS),
            ),
            LedStep::Rainbow { hue, part } => match part {
                FramePart::Block => (
                    LedStep::Rainbow { hue, part: FramePart::Sleep },
                    LedAction::Block(FRAME_MS),
                ),
                FramePart::Sleep => (
                    LedStep::Rainbow { hue, part: FramePart::Show },
                    LedAction::Sleep(FRAME_MS as u64),
                ),
                FramePart::Show => {
                    let following: u32 = if hue + 1 == HUES {
                        0
                    } else {
                        hue + 1
                    };
                    (
                        LedStep::Rainbow { hue: following, part: FramePart::Block },
                        LedAction::ShowHsv {
                            hue,
                            saturation: RAINBOW_SATURATION,
                            value: RAINBOW_VALUE,
                        },
                    )
                },
            },
        }
    }
}

/// Three steps take a rainbow frame to the next hue.
pub proof fn lemma_rainbow_frame(hue: u32)
    requires
        hue < HUES,
    ensures
        (LedStep::Rainbow { hue, part: FramePart::Block }).after(3) == (LedStep::Rainbow {
            hue: ((hue + 1) % HUES as int) as u32,
            part: FramePart::Block,
        }),
{
    let s0 = LedStep::Rainbow { hue, part: FramePart::Block };
    let s1 = LedStep::Rainbow { hue, part: FramePart::Sleep };
    let s2 = LedStep::Rainbow { hue, part: FramePart::Show };
    let s3 = LedStep::Rainbow { hue: ((hue + 1) % HUES as int) as u32, part: FramePart::Block };
    assert(s3.after(0) == s3);
    assert(s2.after(1) == s3);
    assert(s1.after(2) == s3);
    assert(s0.after(3) == s3);
}

/// Steps compose: `n + k` steps are `n` steps followed by `k` steps.
pub proof fn lemma_after_add(step: LedStep, n: nat, k: nat)
    ensures
        step.after(n + k) == step.after(n).after(k),
    decreases n,
{
    if n > 0 {
        lemma_after_add(step.transition().0, (n - 1) as nat, k);
        assert((n + k - 1) as nat == (n - 1) as nat + k);
    }
}

/// `3 * k` steps from a frame's start advance the hue by `k`, around the turn.
pub proof fn lemma_rainbow_frames(hue: u32, k: nat)
    requires
        hue < HUES,
    ensures
        (LedStep::Rainbow { hue, part: FramePart::Block }).after(3 * k) == (LedStep::Rainbow {
            hue: ((hue + k) % HUES as int) as u32,
            part: FramePart::Block,
        }),
    decreases k,
{
    let s0 = LedStep::Rainbow { hue, part: FramePart::Block };
    if k == 0 {
        assert(((hue + 0) % HUES as int) == hue);
    } else {
        lemma_rainbow_frames(hue, (k - 1) as nat);
        let mid_hue = ((hue + (k - 1)) % HUES as int) as u32;
        let mid = LedStep::Rainbow { hue: mid_hue, part: FramePart::Block };
        lemma_after_add(s0, 3 * (k - 1) as nat, 3);
        assert(3 * k == 3 * (k - 1) as nat + 3);
        lemma_rainbow_frame(mid_hue);
        assert(((mid_hue + 1) % HUES as int) == (hue + k) % HUES as int) by {
            vstd::arithmetic::div_mod::lemma_add_mod_noop(hue + (k - 1), 1, HUES as int);
            vstd::arithmetic::div_mod::lemma_mod_twice(1, HUES as int);
        }
    }
}

/// The rainbow repeats: after one turn of 360 frames (three steps each) the
/// task is back where it was.
pub proof fn lemma_rainbow_period(hue: u32)
    requires
        hue < HUES,
    ensures
        (LedStep::Rainbow { hue, part: FramePart::Block }).after(3 * HUES as nat) == (LedStep::Rainbow {
            hue,
            part: FramePart::Block,
        }),
{
    lemma_rainbow_frames(hue, HUES as nat);
    vstd::arithmetic::div_mod::lemma_mod_add_multiples_vanish(hue as int, HUES as int);
    vstd::arithmetic::div_mod::lemma_small_mod(hue as nat, HUES as nat);
}

/// Every HSV colour with a hue of at most 360 and a saturation and value of
/// at most 100 each is accepted, whatever they are relative to each other;
/// any other is refused.
pub proof fn lemma_hsv_range(h: u32, s: u32, v: u32)
    ensures
        hsv_in_range(h, s, v) <==> (h <= 360 && s <= 100 && v <= 100),
{
}

/// The LED program: white at 25/255 first, kept for 3000 ms, then frames
/// from hue 0 on; each frame blocks for 10 ms, sleeps for 10 ms and then
/// shows its own hue at saturation 100 and value 20, and the next frame has
/// the next hue, after 359 hue 0.
pub proof fn lemma_led_program(hue: u32)
    requires
        hue < 360,
    ensures
        LedStep::Start.transition() == (LedStep::Greeting, LedAction::Show(
            Rgb { r: 25, g: 25, b: 25 },
        )),
        LedStep::Greeting.transition() == (LedStep::Rainbow { hue: 0, part: FramePart::Block }, LedAction::Sleep(
            3000,
        )),
        (LedStep::Rainbow { hue, part: FramePart::Block }).transition() == (LedStep::Rainbow {
            hue,
            part: FramePart::Sleep,
        }, LedAction::Block(10)),
        (LedStep::Rainbow { hue, part: FramePart::Sleep }).transition() == (LedStep::Rainbow {
            hue,
            part: FramePart::Show,
        }, LedAction::Sleep(10)),
        (LedStep::Rainbow { hue, part: FramePart::Show }).transition() == (LedStep::Rainbow {
            hue: if hue == 359 {
                0
            } else {
                (hue + 1) as u32
            },
            part: FramePart::Block,
        }, LedAction::ShowHsv { hue, saturation: 100, value: 20 }),
{
}

} // verus!
