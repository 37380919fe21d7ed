use vstd::prelude::*;
use vstd::string::StringSliceAdditionalSpecFns;
use std::collections::HashSet;
use crate::device::ProductArchetype;

verus! {

/// Static information about a light.
#[derive(Clone, Debug)]
pub struct LightMetadata {
    /// Human readable name of a resource.
    pub name: String,
    /// Product archetype.
    pub archetype: ProductArchetype,
    /// A fixed mired value of the white lamp.
    pub fixed_mired: Option<u16>,
}

/// On/off state of a light.
#[derive(Clone, Debug)]
pub struct OnState {
    /// On/Off state of the light.
    ///
    /// on=true
    /// off=false
    pub on: bool,
}

/// Colour temperature state of a light.
#[derive(Clone, Debug)]
pub struct ColorTempState {
    /// Color temperature in mirek or [None] when the light color is not in the ct spectrum.
    pub mirek: Option<u16>,
    /// Indication whether the value presented in mirek is valid.
    pub mirek_valid: bool,
    pub mirek_schema: MirekSchema,
}

/// The colour temperature range of a light.
#[derive(Clone, Debug)]
pub struct MirekSchema {
    /// Minimum color temperature this light supports.
    pub mirek_minimum: u16,
    /// Maximum color temperature this light supports.
    pub mirek_maximum: u16,
}

/// The gammut types supported by hue
#[derive(Clone, Copy, Debug, Eq, Hash, PartialEq, Structural)]
pub enum GamutType {
    /// Gamut of early Philips color-only products
    A,
    /// Limited gamut of first Hue color products
    B,
    /// Richer color gamut of Hue white and color ambiance products
    C,
    /// Color gamut of non-hue products with non-hue gamuts resp w/o gamut
    Other,
}

/// Statuses in which a lamp could be when playing dynamics.
#[derive(Copy, Clone, Debug, Eq, Hash, PartialEq, Structural)]
pub enum DynamicsStatus {
    DynamicPalette,
    /// No dynamics are playing.
    Inactive,
}

/// Alert effects of a light.
#[derive(Debug)]
pub struct AlertState {
    /// Alert effects that the light supports.
    pub action_values: HashSet<AlertEffectType>,
}

#[derive(Clone, Copy, Debug, Eq, Hash, PartialEq, Structural)]
pub enum AlertEffectType {
    Breathe,
}

#[derive(Copy, Clone, Eq, Debug, Hash, PartialEq, Structural)]
pub enum SignalType {
    /// Stop active signal.
    NoSignal,
    /// Toggle between max brightness and off in fixed color.
    OnOff,
    /// Toggles between off and max brightness with a provided color.
    OnOffColor,
    /// Alternates between two provided colors.
    Alternating,
}

#[derive(Clone, Copy, Debug, Eq, Hash, PartialEq, Structural)]
pub enum Mode {
    Normal,
    Streaming,
}

/// Modes a gradient device can deploy the gradient palette of colors.
#[derive(Clone, Copy, Debug, Eq, Hash, PartialEq, Structural)]
pub enum GradientMode {
    InterpolatedPalette,
    InterpolatedPaletteMirrored,
    RandomPixelated,
}

/// Effect state of a light.
#[derive(Debug)]
pub struct EffectState {
    pub effect: Option<EffectType>,
    /// Possible effect values you can set in a light.
    pub effect_values: HashSet<EffectType>,
    /// Current status values the light is in regarding effects.
    pub status: EffectType,
    /// Possible status values in which a light could be when playing an effect.
    pub status_values: HashSet<EffectType>,
}

#[derive(Clone, Copy, Debug, Eq, Hash, PartialEq, Structural)]
pub enum EffectType {
    Prism,
    Opal,
    Glisten,
    Sparkle,
    Fire,
    Candle,
    NoEffect,
}

/// Timed effect state of a light.
#[derive(Debug)]
pub struct TimedEffectState {
    pub effect: Option<TimedEffectType>,
    /// Possible timed effect values you can set in a light.
    pub effect_values: HashSet<TimedEffectType>,
    /// Current status values the light is in regarding timed effects.
    pub status: TimedEffectType,
    /// Possible status values in which a light could be when playing a timed effect.
    pub status_values: HashSet<TimedEffectType>,
    /// Duration (ms) is mandatory when timed effect is set except for NoEffect.
    /// Resolution decreases for a larger duration. e.g effects with duration smaller than a minute
    /// will be rounded to a resolution of 1s, while effects with duration larger than an hour
    /// will be arounded up to a resolution of 300s. Duration has a max of 21600000 ms.
    pub duration: usize,
}

#[derive(Clone, Copy, Debug, Eq, Hash, PartialEq, Structural)]
pub enum TimedEffectType {
    Sunrise,
    NoEffect,
}

/// Feature containing properties to configure powerup behaviour of a lightsource.
#[derive(Clone, Debug)]
pub struct PowerupState {
    /// When setting the [PowerupPresetType::Custom] preset the additional properties can be set.
    /// For all other presets, no other properties can be included.
    pub preset: PowerupPresetType,
    /// Indicates if the shown values have been configured in the lightsource.
    pub configured: bool,
    /// State to activate after powerup.
    pub on: PowerupOnState,
}

#[derive(Clone, Copy, Debug, Eq, Hash, PartialEq, Structural)]
pub enum PowerupPresetType {
    Safety,
    Powerfail,
    LastOnState,
    Custom,
}

/// State to activate after powerup.
#[derive(Clone, Debug)]
pub struct PowerupOnState {
    /// State to activate after powerup. When setting mode [PowerupOnMode::On], the `on` property must be included.
    pub mode: PowerupOnMode,
    pub on: Option<OnState>,
}

#[derive(Clone, Copy, Debug, Eq, Hash, PartialEq, Structural)]
pub enum PowerupOnMode {
    /// Use the value specified in the [PowerupOnState] `on` property.
    On,
    /// Alternate between on and off on each subsequent power toggle.
    Toggle,
    /// Return to the state it was in before powering off.
    Previous,
}


/// Why a hexadecimal colour could not be read.
#[derive(Clone, Copy, Debug, PartialEq, Eq, Structural)]
pub enum ParseColorError {
    /// A byte that should be a hex digit (or the leading `#`) is not one.
    InvalidByte,
    /// The input is not 3, 4, 6 or 7 bytes long.
    InvalidLength,
}

/// The value of an ASCII hex digit (`0-9`, `A-F`, `a-f`), or `None`.
pub open spec fn hex_digit(b: u8) -> Option<u8> {
    if 48 <= b <= 57 {
        Some((b - 48) as u8)
    } else if 65 <= b <= 70 {
        Some((b - 55) as u8)
    } else if 97 <= b <= 102 {
        Some((b - 87) as u8)
    } else {
        None
    }
}

/// The value of the hex digit at position `i` of `s`.
pub open spec fn digit_at(s: Seq<u8>, i: int) -> u8 {
    match hex_digit(s[i]) {
        Some(v) => v,
        None => 0,
    }
}

/// Every byte of `s` is a hex digit.
pub open spec fn all_hex_digits(s: Seq<u8>) -> bool {
    forall|i: int| 0 <= i < s.len() ==> (#[trigger] hex_digit(s[i])) is Some
}

/// The input is one of the lengths that carry a leading `#`.
pub open spec fn has_hash_length(n: nat) -> bool {
    n == 4 || n == 7
}

/// The digits of a colour of one of the accepted lengths, without its `#`.
pub open spec fn color_digits(s: Seq<u8>) -> Seq<u8> {
    if has_hash_length(s.len()) {
        s.skip(1)
    } else {
        s
    }
}

/// The red, green and blue bytes that a colour in hex notation stands for.
///
/// The accepted forms are `rgb`, `#rgb`, `rrggbb` and `#rrggbb`, where the
/// `#` is required exactly when the input is 4 or 7 bytes long. In the short
/// forms each digit `d` gives the byte `17 * d`. In the long forms each pair
/// of digits `d0 d1` gives the byte `d0 | (d1 << 1)`.
pub open spec fn spec_parse_hex(s: Seq<u8>) -> Result<Seq<u8>, ParseColorError> {
    let n = s.len();
    if !(n == 3 || n == 4 || n == 6 || n == 7) {
        Err(ParseColorError::InvalidLength)
    } else if has_hash_length(n) && s[0] != 35 {
        Err(ParseColorError::InvalidByte)
    } else {
        let d = color_digits(s);
        if !all_hex_digits(d) {
            Err(ParseColorError::InvalidByte)
        } else if n <= 4 {
            Ok(
                seq![
                    (17 * digit_at(d, 0)) as u8,
                    (17 * digit_at(d, 1)) as u8,
                    (17 * digit_at(d, 2)) as u8,
                ],
            )
        } else {
            Ok(
                seq![
                    digit_at(d, 0) | (digit_at(d, 1) << 1u8),
                    digit_at(d, 2) | (digit_at(d, 3) << 1u8),
                    digit_at(d, 4) | (digit_at(d, 5) << 1u8),
                ],
            )
        }
    }
}

fn hex_digit_value(b: u8) -> (res: Option<u8>)
    ensures
        res == hex_digit(b),
        res matches Some(v) ==> v < 16,
        48 <= b <= 57 ==> res == Some((b - 48) as u8),
        65 <= b <= 70 ==> res == Some((b - 55) as u8),
        97 <= b <= 102 ==> res == Some((b - 87) as u8),
        !(48 <= b <= 57 || 65 <= b <= 70 || 97 <= b <= 102) ==> res is None,
{
    if 48 <= b && b <= 57 {
        Some(b - 48)
    } else if 65 <= b && b <= 70 {
        Some(b - 55)
    } else if 97 <= b && b <= 102 {
        Some(b - 87)
    } else {
        None
    }
}

/// Reads a colour in hex notation (`rgb`, `#rgb`, `rrggbb` or `#rrggbb`)
/// into its red, green and blue bytes.
pub fn parse_hex_rgb(hex: &str) -> (res: Result<[u8; 3], ParseColorError>)
    ensures
        match res {
            Ok(rgb) => spec_parse_hex(hex.spec_bytes()) == Ok::<Seq<u8>, ParseColorError>(rgb@),
            Err(e) => spec_parse_hex(hex.spec_bytes()) == Err::<Seq<u8>, ParseColorError>(e),
        },
{
    let bytes = hex.as_bytes();
    let len = bytes.len();
    let ghost s = bytes@;
    if !(len == 3 || len == 4 || len == 6 || len == 7) {
        return Err(ParseColorError::InvalidLength);
    }
    let start: usize = if len == 4 || len == 7 {
        if bytes[0] != 35 {
            return Err(ParseColorError::InvalidByte);
        }
        1
    } else {
        0
    };
    let ghost d = color_digits(s);
    assert(d =~= s.skip(start as int));
    let mut vals: Vec<u8> = Vec::new();
    let mut i: usize = start;
    while i < len
        invariant
            bytes@ == s,
            s == hex.spec_bytes(),
            len == s.len(),
            len == 3 || len == 4 || len == 6 || len == 7,
            has_hash_length(s.len()) ==> s[0] == 35,
            d == color_digits(s),
            d == s.skip(start as int),
            start <= i <= len,
            start <= 1,
            vals@.len() == i - start,
            forall|j: int|
                0 <= j < vals@.len() ==> hex_digit(d[j]) == Some(#[trigger] vals@[j]) && vals@[j]
                    < 16,
        decreases len - i,
    {
        match hex_digit_value(bytes[i]) {
            Some(v) => {
                assert(d[i - start] == s[i as int]);
                vals.push(v);
            },
            None => {
                assert(d[i - start] == s[i as int]);
                assert(hex_digit(d[i - start]) is None);
                assert(!all_hex_digits(d));
                return Err(ParseColorError::InvalidByte);
            },
        }
        i += 1;
    }
    assert(all_hex_digits(d)) by {
        assert forall|j: int| 0 <= j < d.len() implies (#[trigger] hex_digit(d[j])) is Some by {
            assert(hex_digit(d[j]) == Some(vals@[j]));
        }
    }
    assert forall|j: int| 0 <= j < d.len() implies digit_at(d, j) == vals@[j] by {
        assert(hex_digit(d[j]) == Some(vals@[j]));
    }
    if len <= 4 {
        let rgb = [vals[0] * 17, vals[1] * 17, vals[2] * 17];
        assert(rgb@ =~= seq![
            (17 * digit_at(d, 0)) as u8,
            (17 * digit_at(d, 1)) as u8,
            (17 * digit_at(d, 2)) as u8,
        ]);
        Ok(rgb)
    } else {
        let rgb = [vals[0] | (vals[1] << 1u8), vals[2] | (vals[3] << 1u8), vals[4] | (vals[5] << 1u8)];
        assert(rgb@ =~= seq![
            digit_at(d, 0) | (digit_at(d, 1) << 1u8),
            digit_at(d, 2) | (digit_at(d, 3) << 1u8),
            digit_at(d, 4) | (digit_at(d, 5) << 1u8),
        ]);
        Ok(rgb)
    }
}

/// ASCII upper-case letters mapped to lower case; every other byte unchanged.
pub open spec fn ascii_lowercase(b: u8) -> u8 {
    if 65 <= b <= 90 {
        (b + 32) as u8
    } else {
        b
    }
}

proof fn lemma_hex_digit_lowercase(b: u8)
    ensures
        hex_digit(ascii_lowercase(b)) == hex_digit(b),
        (ascii_lowercase(b) == 35) == (b == 35),
{
}

/// The leading `#` is optional: a colour reads the same with and without it.
pub proof fn lemma_hash_prefix_optional(s: Seq<u8>)
    requires
        s.len() == 3 || s.len() == 6,
    ensures
        spec_parse_hex(seq![35u8] + s) == spec_parse_hex(s),
{
    let t = seq![35u8] + s;
    assert(t[0] == 35);
    assert(color_digits(t) =~= s);
    assert(color_digits(s) == s);
}

/// Hex digits are read without regard to case: lower-casing the input does
/// not change the outcome.
pub proof fn lemma_parse_hex_ignores_case(s: Seq<u8>)
    ensures
        spec_parse_hex(s.map_values(|b: u8| ascii_lowercase(b))) == spec_parse_hex(s),
{
    let t = s.map_values(|b: u8| ascii_lowercase(b));
    assert(t.len() == s.len());
    if t.len() > 0 {
        lemma_hex_digit_lowercase(s[0]);
        assert(t[0] == ascii_lowercase(s[0]));
    }
    let ds = color_digits(s);
    let dt = color_digits(t);
    assert(dt =~= ds.map_values(|b: u8| ascii_lowercase(b)));
    assert forall|i: int| 0 <= i < dt.len() implies hex_digit(dt[i]) == hex_digit(ds[i]) by {
        lemma_hex_digit_lowercase(ds[i]);
    }
    assert(all_hex_digits(dt) == all_hex_digits(ds)) by {
        if all_hex_digits(ds) {
            assert forall|i: int| 0 <= i < dt.len() implies (#[trigger] hex_digit(dt[i])) is Some by {
                assert(hex_digit(ds[i]) is Some);
            }
        }
        if all_hex_digits(dt) {
            assert forall|i: int| 0 <= i < ds.len() implies (#[trigger] hex_digit(ds[i])) is Some by {
                assert(hex_digit(dt[i]) is Some);
            }
        }
    }
    assert forall|i: int| 0 <= i < dt.len() implies digit_at(dt, i) == digit_at(ds, i) by {
        assert(hex_digit(dt[i]) == hex_digit(ds[i]));
    }
    if all_hex_digits(ds) && (s.len() == 3 || s.len() == 4 || s.len() == 6 || s.len() == 7) {
        if s.len() <= 4 {
            assert(digit_at(dt, 0) == digit_at(ds, 0));
            assert(digit_at(dt, 1) == digit_at(ds, 1));
            assert(digit_at(dt, 2) == digit_at(ds, 2));
        } else {
            assert(digit_at(dt, 0) == digit_at(ds, 0));
            assert(digit_at(dt, 1) == digit_at(ds, 1));
            assert(digit_at(dt, 2) == digit_at(ds, 2));
            assert(digit_at(dt, 3) == digit_at(ds, 3));
            assert(digit_at(dt, 4) == digit_at(ds, 4));
            assert(digit_at(dt, 5) == digit_at(ds, 5));
        }
    }
}

/// The hex digits and their values: `0`-`9` are 0 to 9, `A`-`F` and `a`-`f`
/// are 10 to 15, and no other byte is a digit.
pub proof fn lemma_hex_digit_values(b: u8)
    ensures
        48 <= b <= 57 ==> hex_digit(b) == Some((b - 48) as u8),
        65 <= b <= 70 ==> hex_digit(b) == Some((b - 55) as u8),
        97 <= b <= 102 ==> hex_digit(b) == Some((b - 87) as u8),
        !(48 <= b <= 57 || 65 <= b <= 70 || 97 <= b <= 102) ==> hex_digit(b) is None,
{
}

/// What reading a colour gives, in terms of the input bytes:
/// - the length is wrong exactly when it is not 3, 4, 6 or 7;
/// - the input is accepted exactly when its length is right, it starts with
///   `#` if (and only if) it is 4 or 7 bytes long, and every other byte is
///   one of `0-9`, `A-F`, `a-f`;
/// - an accepted input gives three bytes: in the short forms each is 17 times
///   a digit's value, in the long forms each is `d0 | (d1 << 1)` for a pair
///   of digits, taken in order after the optional `#`.
pub proof fn lemma_parse_hex_outcome(s: Seq<u8>)
    ensures
        (spec_parse_hex(s) == Err::<Seq<u8>, ParseColorError>(ParseColorError::InvalidLength)) <==> !(
        s.len() == 3 || s.len() == 4 || s.len() == 6 || s.len() == 7),
        spec_parse_hex(s) is Ok <==> {
            &&& (s.len() == 3 || s.len() == 4 || s.len() == 6 || s.len() == 7)
            &&& (s.len() == 4 || s.len() == 7) ==> s[0] == 35
            &&& forall|i: int|
                (if s.len() == 4 || s.len() == 7 { 1int } else { 0int }) <= i < s.len() ==> {
                    let b = #[trigger] s[i];
                    48 <= b <= 57 || 65 <= b <= 70 || 97 <= b <= 102
                }
        },
        spec_parse_hex(s) matches Ok(v) ==> {
            &&& v.len() == 3
            &&& s.len() == 3 ==> forall|k: int|
                0 <= k < 3 ==> hex_digit(s[k]) == Some(#[trigger] v[k] / 17) && v[k] % 17 == 0
            &&& s.len() == 4 ==> forall|k: int|
                0 <= k < 3 ==> hex_digit(s[k + 1]) == Some(#[trigger] v[k] / 17) && v[k] % 17 == 0
            &&& s.len() == 6 ==> forall|k: int|
                0 <= k < 3 ==> {
                    &&& hex_digit(s[2 * k]) matches Some(d0)
                    &&& hex_digit(s[2 * k + 1]) matches Some(d1)
                    &&& #[trigger] v[k] == d0 | (d1 << 1u8)
                }
            &&& s.len() == 7 ==> forall|k: int|
                0 <= k < 3 ==> {
                    &&& hex_digit(s[2 * k + 1]) matches Some(d0)
                    &&& hex_digit(s[2 * k + 2]) matches Some(d1)
                    &&& #[trigger] v[k] == d0 | (d1 << 1u8)
                }
        },
{
    let n = s.len();
    let start: int = if n == 4 || n == 7 { 1 } else { 0 };
    if n == 3 || n == 4 || n == 6 || n == 7 {
        let d = color_digits(s);
        assert(d.len() == n - start);
        assert forall|i: int| 0 <= i < d.len() implies d[i] == s[i + start] by {}
        let lit = forall|i: int|
            start <= i < s.len() ==> {
                let b = #[trigger] s[i];
                48 <= b <= 57 || 65 <= b <= 70 || 97 <= b <= 102
            };
        if all_hex_digits(d) {
            assert forall|i: int| start <= i < s.len() implies {
                let b = #[trigger] s[i];
                48 <= b <= 57 || 65 <= b <= 70 || 97 <= b <= 102
            } by {
                assert(d[i - start] == s[i]);
                assert(hex_digit(d[i - start]) is Some);
            }
        } else {
            let j = choose|j: int| 0 <= j < d.len() && !((#[trigger] hex_digit(d[j])) is Some);
            assert(d[j] == s[j + start]);
            assert(!lit);
        }
        if spec_parse_hex(s) is Ok {
            let v = spec_parse_hex(s)->Ok_0;
            assert forall|k: int| 0 <= k < d.len() implies hex_digit(d[k]) == Some(digit_at(d, k))
                && digit_at(d, k) < 16 by {
                assert(hex_digit(d[k]) is Some);
            }
            if n <= 4 {
                assert forall|k: int| 0 <= k < 3 implies hex_digit(s[k + start]) == Some(
                    #[trigger] v[k] / 17,
                ) && v[k] % 17 == 0 by {
                    assert(d[k] == s[k + start]);
                    assert(v[k] == (17 * digit_at(d, k)) as u8);
                }
                if n == 3 {
                    assert forall|k: int| 0 <= k < 3 implies hex_digit(s[k]) == Some(#[trigger] v[k] / 17)
                        && v[k] % 17 == 0 by {
                        assert(s[k + start] == s[k]);
                    }
                }
            } else {
                assert forall|k: int| 0 <= k < 3 implies {
                    &&& hex_digit(s[2 * k + start]) matches Some(d0)
                    &&& hex_digit(s[2 * k + 1 + start]) matches Some(d1)
                    &&& #[trigger] v[k] == d0 | (d1 << 1u8)
                } by {
                    assert(d[2 * k] == s[2 * k + start]);
                    assert(d[2 * k + 1] == s[2 * k + 1 + start]);
                }
                if n == 6 {
                    assert forall|k: int| 0 <= k < 3 implies {
                        &&& hex_digit(s[2 * k]) matches Some(d0)
                        &&& hex_digit(s[2 * k + 1]) matches Some(d1)
                        &&& #[trigger] v[k] == d0 | (d1 << 1u8)
                    } by {
                        assert(s[2 * k + start] == s[2 * k]);
                        assert(s[2 * k + 1 + start] == s[2 * k + 1]);
                    }
                } else {
                    assert forall|k: int| 0 <= k < 3 implies {
                        &&& hex_digit(s[2 * k + 1]) matches Some(d0)
                        &&& hex_digit(s[2 * k + 2]) matches Some(d1)
                        &&& #[trigger] v[k] == d0 | (d1 << 1u8)
                    } by {
                        assert(s[2 * k + start] == s[2 * k + 1]);
                        assert(s[2 * k + 1 + start] == s[2 * k + 2]);
                    }
                }
            }
        }
    }
}

} // verus!
