//! The configuration of the default cursor: a theme name and an icon size.

use vstd::prelude::*;
use vstd::string::{is_ascii_spec_bytes, StringSliceAdditionalSpecFns};

verus! {

/// The theme that is used where none is configured.
pub const DEFAULT_THEME: &'static str = "DMZ-White";

/// The icon size, in pixels, that is used where none is configured.
pub const DEFAULT_SIZE: i32 = 24;

/// The theme to take the default cursor from, and the size to take it in.
pub struct CursorConfig {
    pub theme: String,
    pub size: i32,
}

/// Whether a character is one of the ten decimal digits.
pub open spec fn is_digit(c: char) -> bool {
    '0' <= c <= '9'
}

/// Whether every character is a decimal digit.
pub open spec fn all_digits(digits: Seq<char>) -> bool {
    forall|i: int| 0 <= i < digits.len() ==> is_digit(#[trigger] digits[i])
}

/// The number that a sequence of decimal digits writes.
pub open spec fn digits_value(digits: Seq<char>) -> int
    decreases digits.len(),
{
    if digits.len() == 0 {
        0
    } else {
        10 * digits_value(digits.drop_last()) + (digits.last() as u32 - '0' as u32)
    }
}

/// The number that a text writes in decimal: an optional `+` or `-`, then
/// one digit or more and nothing else, the number lying within `i32`. Any
/// other text writes no number.
pub open spec fn decimal_i32(text: Seq<char>) -> Option<i32> {
    let signed = text.len() > 0 && (text[0] == '+' || text[0] == '-');
    let digits = if signed {
        text.skip(1)
    } else {
        text
    };
    let value = if signed && text[0] == '-' {
        -digits_value(digits)
    } else {
        digits_value(digits)
    };
    if digits.len() > 0 && all_digits(digits) && i32::MIN <= value <= i32::MAX {
        Some(value as i32)
    } else {
        None
    }
}

/// The theme that a setting stands for: itself, or the default where it is left out.
pub open spec fn theme_or_default(theme: Option<Seq<char>>) -> Seq<char> {
    match theme {
        Some(name) => name,
        None => DEFAULT_THEME@,
    }
}

/// The size that a setting stands for: itself, or the default where it is left out.
pub open spec fn size_or_default(size: Option<i32>) -> i32 {
    match size {
        Some(pixels) => pixels,
        None => DEFAULT_SIZE,
    }
}

/// The view of a theme setting.
pub open spec fn theme_view(theme: Option<String>) -> Option<Seq<char>> {
    match theme {
        Some(name) => Some(name@),
        None => None,
    }
}

/// The number that a size setting writes, if it is there and writes one.
pub open spec fn size_written(size: Option<&str>) -> Option<i32> {
    match size {
        Some(text) => decimal_i32(text@),
        None => None,
    }
}

/// The number that `text` writes in decimal, if it writes one.
pub fn parse_size(text: &str) -> (number: Option<i32>)
    ensures
        number == decimal_i32(text@),
{
    broadcast use is_ascii_spec_bytes;

    if !text.is_ascii() {
        proof {
            lemma_not_ascii_writes_no_number(text@);
        }
        return None;
    }
    let bytes = text.as_bytes();
    let n = bytes.len();
    let mut negative = false;
    let mut i: usize = 0;
    if n > 0 && (bytes[0] == 43 || bytes[0] == 45) {
        negative = bytes[0] == 45;
        i = 1;
    }
    let ghost start = i as int;
    let ghost digits = text@.skip(start);
    proof {
        assert(text@.skip(0) == text@);
        assert(n > 0 ==> (text@[0] == '+' <==> bytes@[0] == 43));
        assert(n > 0 ==> (text@[0] == '-' <==> bytes@[0] == 45));
    }
    if i == n {
        return None;
    }
    let mut value: i64 = 0;
    while i < n
        invariant
            0 <= start <= i <= n == text@.len(),
            start == if text@.len() > 0 && (text@[0] == '+' || text@[0] == '-') {
                1int
            } else {
                0int
            },
            digits == text@.skip(start),
            text@.skip(0) == text@,
            text.is_ascii(),
            bytes@ == text.spec_bytes(),
            all_digits(digits.take(i - start)),
            value == digits_value(digits.take(i - start)),
            0 <= value <= 0x8000_0000,
        decreases n - i,
    {
        let byte = bytes[i];
        proof {
            assert(digits[i - start] == text@[i as int]);
            assert(byte == text@[i as int] as u8);
            assert(digits.take(i - start + 1).drop_last() == digits.take(i - start));
            assert(digits.take(i - start + 1).last() == digits[i - start]);
        }
        if byte < 48 || byte > 57 {
            proof {
                assert(!is_digit(digits[i - start]));
            }
            return None;
        }
        value = 10 * value + (byte - 48) as i64;
        if value > 0x8000_0000 {
            proof {
                if all_digits(digits) {
                    lemma_digits_value_prefix(digits, i - start + 1);
                }
            }
            return None;
        }
        i = i + 1;
    }
    proof {
        assert(digits.take(i - start) == digits);
    }
    if negative {
        Some((-value) as i32)
    } else if value > 0x7fff_ffff {
        None
    } else {
        Some(value as i32)
    }
}

impl CursorConfig {
    /// The configuration with the given settings, and the defaults for
    /// those left out.
    pub fn new(theme: Option<String>, size: Option<i32>) -> (config: Self)
        ensures
            config.theme@ == theme_or_default(theme_view(theme)),
            config.size == size_or_default(size),
    {
        let theme = match theme {
            Some(name) => name,
            None => DEFAULT_THEME.to_owned(),
        };
        let size = match size {
            Some(pixels) => pixels,
            None => DEFAULT_SIZE,
        };
        CursorConfig { theme, size }
    }

    /// The configuration with the given settings as they are written down:
    /// the size as text. A size that is left out, or that writes no number,
    /// gives the default size.
    pub fn from_settings(theme: Option<String>, size: Option<&str>) -> (config: Self)
        ensures
            config.theme@ == theme_or_default(theme_view(theme)),
            config.size == size_or_default(size_written(size)),
    {
        let size = match size {
            Some(text) => parse_size(text),
            None => None,
        };
        CursorConfig::new(theme, size)
    }
}

impl Default for CursorConfig {
    /// The default theme at the default size.
    fn default() -> (config: Self)
        ensures
            config.theme@ == DEFAULT_THEME@,
            config.size == DEFAULT_SIZE,
    {
        CursorConfig::new(None, None)
    }
}

/// A text with a character beyond ASCII writes no number.
pub proof fn lemma_not_ascii_writes_no_number(text: Seq<char>)
    requires
        !vstd::utf8::is_ascii_chars(text),
    ensures
        decimal_i32(text) is None,
{
    let at = choose|i: int| 0 <= i < text.len() && !('\0' <= #[trigger] text[i] <= '\u{7f}');
    let signed = text.len() > 0 && (text[0] == '+' || text[0] == '-');
    if signed {
        assert(at > 0);
        assert(text.skip(1)[at - 1] == text[at]);
        assert(!is_digit(text.skip(1)[at - 1]));
    } else {
        assert(!is_digit(text[at]));
    }
}

/// Digits write no smaller a number than fewer of them do.
pub proof fn lemma_digits_value_prefix(digits: Seq<char>, n: int)
    requires
        0 <= n <= digits.len(),
        all_digits(digits),
    ensures
        0 <= digits_value(digits.take(n)) <= digits_value(digits),
    decreases digits.len() - n,
{
    if n == digits.len() {
        assert(digits.take(n) == digits);
        lemma_digits_value_nonnegative(digits);
    } else {
        lemma_digits_value_prefix(digits, n + 1);
        assert(digits.take(n + 1).drop_last() == digits.take(n));
        assert(digits.take(n + 1).last() == digits[n]);
        assert(is_digit(digits[n]));
        assert(all_digits(digits.take(n))) by {
            assert forall|i: int| 0 <= i < n implies is_digit(#[trigger] digits.take(n)[i]) by {
                assert(digits.take(n)[i] == digits[i]);
            }
        }
        lemma_digits_value_nonnegative(digits.take(n));
    }
}

/// Digits write no negative number.
pub proof fn lemma_digits_value_nonnegative(digits: Seq<char>)
    requires
        all_digits(digits),
    ensures
        0 <= digits_value(digits),
    decreases digits.len(),
{
    if digits.len() > 0 {
        assert(all_digits(digits.drop_last())) by {
            assert forall|i: int| 0 <= i < digits.len() - 1 implies is_digit(
                #[trigger] digits.drop_last()[i],
            ) by {
                assert(digits.drop_last()[i] == digits[i]);
            }
        }
        lemma_digits_value_nonnegative(digits.drop_last());
        assert(is_digit(digits.last()));
    }
}

} // verus!
