//! The debug annotator: a black banner at the top-left corner of the
//! finished mosaic, and the line of text that belongs on it.

use vstd::prelude::*;
use vstd::string::*;
use crate::buffer::{RgbaBuffer, RgbaPlane};
use crate::imaging::fill_corner;

verus! {

/// Height of the banner, in points.
pub const BANNER_HEIGHT: u32 = 24;

/// Width that the banner allows for each character of its text, in points.
pub const CHARACTER_WIDTH: u32 = 12;

/// Distance of the text from the left and from the top edge of the banner.
pub const TEXT_OFFSET: u32 = 5;

/// Height of the text, in points.
pub const TEXT_SCALE: u32 = 20;

/// The character for a digit from 0 to 9.
pub open spec fn digit_char(d: int) -> char {
    if d == 0 {
        '0'
    } else if d == 1 {
        '1'
    } else if d == 2 {
        '2'
    } else if d == 3 {
        '3'
    } else if d == 4 {
        '4'
    } else if d == 5 {
        '5'
    } else if d == 6 {
        '6'
    } else if d == 7 {
        '7'
    } else if d == 8 {
        '8'
    } else {
        '9'
    }
}

/// The decimal numeral of `n`, without leading zeros.
pub open spec fn decimal(n: nat) -> Seq<char>
    decreases n,
{
    if n < 10 {
        seq![digit_char(n as int)]
    } else {
        decimal(n / 10).push(digit_char((n % 10) as int))
    }
}

/// The text of the banner: the size of a die, the number of dice, and the
/// size of the whole mosaic.
pub open spec fn banner_text_spec(
    dice_size: (u32, u32),
    total_dice: u32,
    full_image_size: (u32, u32),
) -> Seq<char> {
    "Dice size: "@ + decimal(dice_size.0 as nat) + "x"@ + decimal(dice_size.1 as nat)
        + ", Total dice: "@ + decimal(total_dice as nat) + ", Image size: "@ + decimal(
        full_image_size.0 as nat,
    ) + "x"@ + decimal(full_image_size.1 as nat)
}

/// The width of the banner for a text of `characters` characters.
pub open spec fn banner_width(characters: nat) -> nat {
    CHARACTER_WIDTH as nat * characters
}

/// Ten to the power `k`.
pub open spec fn power_of_ten(k: nat) -> nat
    decreases k,
{
    if k == 0 {
        1
    } else {
        10 * power_of_ten((k - 1) as nat)
    }
}

/// A number below ten to the power `digits` has at most `digits` digits.
pub proof fn lemma_decimal_length(n: nat, digits: nat)
    requires
        digits >= 1,
        n < power_of_ten(digits),
    ensures
        1 <= decimal(n).len() <= digits,
    decreases digits,
{
    if n >= 10 {
        assert(power_of_ten(1) == 10) by {
            reveal_with_fuel(power_of_ten, 2);
        }
        assert(digits >= 2);
        lemma_decimal_length(n / 10, (digits - 1) as nat);
    }
}

/// The banner's text is never longer than 91 characters.
pub proof fn lemma_banner_text_length(
    dice_size: (u32, u32),
    total_dice: u32,
    full_image_size: (u32, u32),
)
    ensures
        41 + 5 <= banner_text_spec(dice_size, total_dice, full_image_size).len() <= 41 + 50,
{
    reveal_strlit("Dice size: ");
    reveal_strlit("x");
    reveal_strlit(", Total dice: ");
    reveal_strlit(", Image size: ");
    assert(power_of_ten(10) == 10_000_000_000) by {
        reveal_with_fuel(power_of_ten, 11);
    }
    lemma_decimal_length(dice_size.0 as nat, 10);
    lemma_decimal_length(dice_size.1 as nat, 10);
    lemma_decimal_length(total_dice as nat, 10);
    lemma_decimal_length(full_image_size.0 as nat, 10);
    lemma_decimal_length(full_image_size.1 as nat, 10);
}

/// The numeral for a digit from 0 to 9.
fn digit_str(d: u32) -> (s: &'static str)
    requires
        d < 10,
    ensures
        s@ == seq![digit_char(d as int)],
{
    proof {
        reveal_strlit("0");
        reveal_strlit("1");
        reveal_strlit("2");
        reveal_strlit("3");
        reveal_strlit("4");
        reveal_strlit("5");
        reveal_strlit("6");
        reveal_strlit("7");
        reveal_strlit("8");
        reveal_strlit("9");
    }
    let s: &'static str = if d == 0 {
        "0"
    } else if d == 1 {
        "1"
    } else if d == 2 {
        "2"
    } else if d == 3 {
        "3"
    } else if d == 4 {
        "4"
    } else if d == 5 {
        "5"
    } else if d == 6 {
        "6"
    } else if d == 7 {
        "7"
    } else if d == 8 {
        "8"
    } else {
        "9"
    };
    assert(s@ =~= seq![digit_char(d as int)]);
    s
}

/// The decimal numeral of `n`, without leading zeros.
pub fn decimal_string(n: u32) -> (s: String)
    ensures
        s@ == decimal(n as nat),
    decreases n,
{
    if n < 10 {
        String::from_str(digit_str(n))
    } else {
        let mut s = decimal_string(n / 10);
        s.append(digit_str(n % 10));
        assert(s@ =~= decimal(n as nat));
        s
    }
}

/// The text of the banner: the size of a die, the number of dice, and the
/// size of the whole mosaic.
pub fn banner_text(dice_size: (u32, u32), total_dice: u32, full_image_size: (u32, u32)) -> (text:
    String)
    ensures
        text@ == banner_text_spec(dice_size, total_dice, full_image_size),
{
    let mut text = String::from_str("Dice size: ");
    text.append(decimal_string(dice_size.0).as_str());
    text.append("x");
    text.append(decimal_string(dice_size.1).as_str());
    text.append(", Total dice: ");
    text.append(decimal_string(total_dice).as_str());
    text.append(", Image size: ");
    text.append(decimal_string(full_image_size.0).as_str());
    text.append("x");
    text.append(decimal_string(full_image_size.1).as_str());
    text
}

/// The pixel of the banner: opaque black.
pub open spec fn banner_pixel() -> Seq<u8> {
    seq![0u8, 0u8, 0u8, 255u8]
}

/// Whether `after` is `before` with the banner for a text of `characters`
/// characters drawn at its top-left corner: as much of the banner as lies
/// inside the image is opaque black, and every other pixel is as it was.
pub open spec fn has_banner(before: RgbaPlane, characters: nat, after: RgbaPlane) -> bool {
    &&& after.wf()
    &&& after.width == before.width
    &&& after.height == before.height
    &&& forall|px: int, py: int|
        0 <= px < before.width && 0 <= py < before.height ==> #[trigger] after.pixel(px, py) == (
        if px < banner_width(characters) && py < BANNER_HEIGHT {
            banner_pixel()
        } else {
            before.pixel(px, py)
        })
}

/// An image has only one form with the banner for a text of a given length,
/// and the banner changes nothing but its own pixels.
pub proof fn lemma_banner_unique(before: RgbaPlane, characters: nat, a: RgbaPlane, b: RgbaPlane)
    requires
        before.wf(),
        has_banner(before, characters, a),
        has_banner(before, characters, b),
    ensures
        a == b,
        forall|px: int, py: int|
            0 <= px < before.width && 0 <= py < before.height && (px >= banner_width(characters)
                || py >= BANNER_HEIGHT) ==> #[trigger] a.pixel(px, py) == before.pixel(px, py),
{
    a.lemma_ext(b);
}

/// Draws the banner of the debug annotation at the top-left corner of
/// `image` and returns the text that belongs on it. The text is to be drawn
/// in white, `TEXT_SCALE` points high, `TEXT_OFFSET` points from the left
/// and from the top.
pub fn add_reference_text(
    image: &mut RgbaBuffer,
    dice_size: (u32, u32),
    total_dice: u32,
    full_image_size: (u32, u32),
) -> (text: String)
    requires
        old(image).wf(),
        0 < old(image).width <= i32::MAX,
        0 < old(image).height <= i32::MAX,
    ensures
        text@ == banner_text_spec(dice_size, total_dice, full_image_size),
        has_banner(old(image)@, text@.len(), final(image)@),
{
    let text = banner_text(dice_size, total_dice, full_image_size);
    proof {
        lemma_banner_text_length(dice_size, total_dice, full_image_size);
    }
    let characters = text.as_str().unicode_len();
    let width: u32 = CHARACTER_WIDTH * (characters as u32);
    fill_corner(image, width, BANNER_HEIGHT, 0, 0, 0, 255);
    text
}

} // verus!
