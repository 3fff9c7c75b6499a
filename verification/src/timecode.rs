use vstd::prelude::*;
use vstd::arithmetic::div_mod::{lemma_fundamental_div_mod, lemma_mod_bound, lemma_div_pos_is_pos};
use vstd::string::StringExecFns;

verus! {

/// Total position in frames that a raw `hours:minutes:seconds:frames` reading
/// denotes at the frame rate `fps`.
pub open spec fn total_frames(hours: int, minutes: int, seconds: int, frames: int, fps: int) -> int {
    ((hours * 60 + minutes) * 60 + seconds) * fps + frames
}

/// Total position in seconds that a raw `hours:minutes:seconds` reading denotes.
pub open spec fn total_seconds(hours: int, minutes: int, seconds: int) -> int {
    (hours * 60 + minutes) * 60 + seconds
}

/// Stores timecode values with an associated FPS, can be used for SMPTE timecode
/// and others. Construction normalizes the fields so that
///     minutes < 60
///     seconds < 60
///     frames < fps (when fps > 0)
#[derive(Debug, PartialEq, Eq, Structural, Clone, Copy)]
pub struct Timecode {
    pub hours: u8,
    pub minutes: u8,
    pub seconds: u8,
    pub frames: u8,
    pub fps: u8,
}

impl Timecode {
    /// The field ranges that construction establishes. `hours` is not wrapped
    /// at 24: overflow carries into hours indefinitely. A frame rate of 0 is
    /// the degenerate, unset state in which the frames field is left as given.
    pub open spec fn is_normalized(self) -> bool {
        &&& self.minutes < 60
        &&& self.seconds < 60
        &&& (self.fps > 0 ==> self.frames < self.fps)
    }

    /// The total position in frames that this timecode denotes.
    pub open spec fn total(self) -> int {
        total_frames(self.hours as int, self.minutes as int, self.seconds as int, self.frames as int, self.fps as int)
    }

    /// Creates a new timecode struct; values that are too high are carried over
    /// into the next larger unit (frames into seconds, seconds into minutes,
    /// minutes into hours). A frame rate of 0 leaves the frames field untouched,
    /// so no division by zero can arise. The preconditions only exclude inputs
    /// whose carry into hours would not fit the hours field.
    pub fn new(hours: u8, minutes: u8, seconds: u8, frames: u8, fps: u8) -> (r: Timecode)
        requires
            fps > 0 ==> total_frames(hours as int, minutes as int, seconds as int, frames as int, fps as int) < 921600 * fps,
            fps == 0 ==> total_seconds(hours as int, minutes as int, seconds as int) < 921600,
        ensures
            r.fps == fps,
            r.is_normalized(),
            fps > 0 ==> r.total() == total_frames(hours as int, minutes as int, seconds as int, frames as int, fps as int),
            fps == 0 ==> r.frames == frames && total_seconds(r.hours as int, r.minutes as int, r.seconds as int) == total_seconds(hours as int, minutes as int, seconds as int),
            minutes < 60 && seconds < 60 && (fps > 0 ==> frames < fps) ==> r == (Timecode { hours, minutes, seconds, frames, fps }),
    {
        let mut h: u32 = hours as u32;
        let mut m: u32 = minutes as u32;
        let mut s: u32 = seconds as u32;
        let mut f: u32 = frames as u32;
        let fps32: u32 = fps as u32;

        // If the number of frames is too high, convert the extra to seconds and
        // keep the remainder as frames.
        if fps32 > 0 && f >= fps32 {
            proof {
                lemma_frames_carry(h as int, m as int, s as int, f as int, fps as int);
                lemma_mod_bound(f as int, fps as int);
                lemma_div_pos_is_pos(f as int, fps as int);
            }
            s = s + f / fps32;
            f = f % fps32;
        }
        assert(fps > 0 ==> f < fps && total_frames(h as int, m as int, s as int, f as int, fps as int) == total_frames(hours as int, minutes as int, seconds as int, frames as int, fps as int));
        assert(fps == 0 ==> s == seconds && f == frames);

        let ghost s1: int = s as int;

        // If there are too many seconds, store the excess in minutes.
        if s >= 60 {
            proof {
                lemma_fundamental_div_mod(s as int, 60);
                lemma_mod_bound(s as int, 60);
                lemma_div_pos_is_pos(s as int, 60);
            }
            m = m + s / 60;
            s = s % 60;
        }
        assert(s < 60);
        assert(total_seconds(h as int, m as int, s as int) == total_seconds(h as int, minutes as int, s1));

        // If there are too many minutes, store the excess in hours.
        if m >= 60 {
            proof {
                lemma_fundamental_div_mod(m as int, 60);
                lemma_mod_bound(m as int, 60);
                lemma_div_pos_is_pos(m as int, 60);
            }
            h = h + m / 60;
            m = m % 60;
        }
        assert(m < 60);
        assert(total_seconds(h as int, m as int, s as int) == total_seconds(hours as int, minutes as int, s1));

        proof {
            if fps > 0 {
                lemma_total_product(h as int, m as int, s as int, hours as int, minutes as int, s1, fps as int);
                lemma_hours_fit(h as int, m as int, s as int, f as int, fps as int);
            }
        }
        assert(h < 256);

        Timecode { hours: h as u8, minutes: m as u8, seconds: s as u8, frames: f as u8, fps }
    }
}

/// Carrying whole seconds out of the frames field conserves the total frame
/// count: the carry is a lossless radix conversion.
proof fn lemma_frames_carry(h: int, m: int, s: int, f: int, fps: int)
    requires
        fps > 0,
        f >= 0,
    ensures
        total_frames(h, m, s + f / fps, f % fps, fps) == total_frames(h, m, s, f, fps),
{
    lemma_fundamental_div_mod(f, fps);
    assert(((h * 60 + m) * 60 + (s + f / fps)) * fps + f % fps == ((h * 60 + m) * 60 + s) * fps + f) by (nonlinear_arith)
        requires
            f == fps * (f / fps) + f % fps;
}

/// Equal total seconds give equal total frames at any common frame rate.
proof fn lemma_total_product(h1: int, m1: int, s1: int, h2: int, m2: int, s2: int, fps: int)
    requires
        total_seconds(h1, m1, s1) == total_seconds(h2, m2, s2),
    ensures
        forall|f: int| total_frames(h1, m1, s1, f, fps) == total_frames(h2, m2, s2, f, fps),
{
}

/// A normalized reading whose total frame count is below `921600 * fps` has an
/// hours value below 256, so it fits the stored field.
proof fn lemma_hours_fit(h: int, m: int, s: int, f: int, fps: int)
    by (nonlinear_arith)
    requires
        fps > 0,
        0 <= h,
        0 <= m < 60,
        0 <= s < 60,
        0 <= f < fps,
        total_frames(h, m, s, f, fps) < 921600 * fps,
    ensures
        h < 256,
{
}

/// Law: the normalized representation is unique. Two normalized timecodes at
/// the same positive frame rate that denote the same total position in frames
/// are equal in every field. Together with the constructor's conservation
/// clause this pins construction down completely: in particular, constructing
/// from an already-normalized timecode's fields gives that timecode back.
pub proof fn lemma_normalized_unique(a: Timecode, b: Timecode)
    requires
        a.is_normalized(),
        b.is_normalized(),
        a.fps == b.fps,
        a.fps > 0,
        a.total() == b.total(),
    ensures
        a == b,
{
    let ta = total_seconds(a.hours as int, a.minutes as int, a.seconds as int);
    let tb = total_seconds(b.hours as int, b.minutes as int, b.seconds as int);
    assert(ta == tb && a.frames == b.frames) by (nonlinear_arith)
        requires
            ta * (a.fps as int) + a.frames == tb * (a.fps as int) + b.frames,
            0 <= a.frames < a.fps,
            0 <= b.frames < a.fps;
    assert(a.hours == b.hours && a.minutes == b.minutes && a.seconds == b.seconds);
}

/// The character of one decimal digit.
pub open spec fn spec_digit(d: int) -> char {
    if d == 0 { '0' } else if d == 1 { '1' } else if d == 2 { '2' } else if d == 3 { '3' }
    else if d == 4 { '4' } else if d == 5 { '5' } else if d == 6 { '6' } else if d == 7 { '7' }
    else if d == 8 { '8' } else { '9' }
}

/// The decimal digits of `n`, most significant first, with no padding.
pub open spec fn spec_decimal(n: int) -> Seq<char>
    decreases n,
{
    if n < 10 {
        seq![spec_digit(n)]
    } else {
        spec_decimal(n / 10).push(spec_digit(n % 10))
    }
}

/// Appends one decimal digit character.
fn push_digit(s: &mut String, d: u8)
    requires
        d < 10,
    ensures
        final(s)@ == old(s)@.push(spec_digit(d as int)),
{
    let lit: &str = if d == 0 { "0" } else if d == 1 { "1" } else if d == 2 { "2" }
        else if d == 3 { "3" } else if d == 4 { "4" } else if d == 5 { "5" }
        else if d == 6 { "6" } else if d == 7 { "7" } else if d == 8 { "8" } else { "9" };
    proof {
        reveal_strlit("0");
        reveal_strlit("1");
        reveal_strlit("2");
        reveal_strlit("3");
        reveal_strlit("4");
        reveal_strlit("5");
        reveal_strlit("6");
        reveal_strlit("7");
        reveal_strlit("8");
        reveal_strlit("9");
        assert(lit@ =~= seq![spec_digit(d as int)]);
    }
    s.append(lit);
    proof {
        assert(s@ =~= old(s)@.push(spec_digit(d as int)));
    }
}

/// Renders a byte's value in decimal.
pub fn u8_to_string(n: u8) -> (s: String)
    ensures
        s@ == spec_decimal(n as int),
{
    let mut s = String::new();
    if n >= 100 {
        push_digit(&mut s, n / 100);
    }
    if n >= 10 {
        push_digit(&mut s, (n / 10) % 10);
    }
    push_digit(&mut s, n % 10);
    proof {
        lemma_decimal_of_byte(n as int);
        assert(s@ =~= spec_decimal(n as int));
    }
    s
}

/// Unfolds the decimal digits of a byte-sized value into its up-to-three
/// digit characters.
proof fn lemma_decimal_of_byte(n: int)
    requires
        0 <= n < 256,
    ensures
        n < 10 ==> spec_decimal(n) == seq![spec_digit(n)],
        10 <= n < 100 ==> spec_decimal(n) == seq![spec_digit(n / 10), spec_digit(n % 10)],
        100 <= n ==> spec_decimal(n) == seq![spec_digit(n / 100), spec_digit((n / 10) % 10), spec_digit(n % 10)],
{
    reveal_with_fuel(spec_decimal, 4);
    if 10 <= n < 100 {
        assert(n / 10 < 10);
        assert(spec_decimal(n) =~= seq![spec_digit(n / 10), spec_digit(n % 10)]);
    } else if 100 <= n {
        assert((n / 10) / 10 == n / 100) by {
            vstd::arithmetic::div_mod::lemma_div_denominator(n, 10, 10);
        }
        assert(spec_decimal(n / 10) =~= seq![spec_digit(n / 100), spec_digit((n / 10) % 10)]);
        assert(spec_decimal(n) =~= seq![spec_digit(n / 100), spec_digit((n / 10) % 10), spec_digit(n % 10)]);
    }
}

impl Timecode {
    /// Renders the timecode as `H:MM:SS:FF @ FPSfps`, with no zero padding
    /// beyond what the numbers themselves give. This is a display convention,
    /// not a wire format.
    pub fn format(&self) -> (s: String)
        ensures
            s@ == spec_decimal(self.hours as int) + ":"@ + spec_decimal(self.minutes as int)
                + ":"@ + spec_decimal(self.seconds as int) + ":"@ + spec_decimal(self.frames as int)
                + " @ "@ + spec_decimal(self.fps as int) + "fps"@,
    {
        let mut s = u8_to_string(self.hours);
        let minutes = u8_to_string(self.minutes);
        let seconds = u8_to_string(self.seconds);
        let frames = u8_to_string(self.frames);
        let fps = u8_to_string(self.fps);
        s.append(":");
        s.append(minutes.as_str());
        s.append(":");
        s.append(seconds.as_str());
        s.append(":");
        s.append(frames.as_str());
        s.append(" @ ");
        s.append(fps.as_str());
        s.append("fps");
        proof {
            assert(s@ =~= spec_decimal(self.hours as int) + ":"@ + spec_decimal(self.minutes as int)
                + ":"@ + spec_decimal(self.seconds as int) + ":"@ + spec_decimal(self.frames as int)
                + " @ "@ + spec_decimal(self.fps as int) + "fps"@);
        }
        s
    }
}

impl Default for Timecode {
    /// The all-zero placeholder displayed before any timecode has arrived.
    fn default() -> (r: Timecode)
        ensures
            r == (Timecode { hours: 0, minutes: 0, seconds: 0, frames: 0, fps: 0 }),
    {
        Timecode { hours: 0, minutes: 0, seconds: 0, frames: 0, fps: 0 }
    }
}

} // verus!
