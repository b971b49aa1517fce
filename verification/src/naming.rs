//! The names under which row classes are registered with the native runtime.
//!
//! The runtime keeps one global namespace of class names, so every class that
//! this library asks for gets a name of its own: the class without a delegate
//! a fixed one, the class for a delegate type a fixed stem followed by the
//! type's identity in sixteen hexadecimal digits.

use vstd::prelude::*;
use vstd::string::StringExecFns;

verus! {

/// Which row class is meant: the one without a delegate, or the one for the
/// delegate type with the given identity.
#[derive(Clone, Copy, Debug, PartialEq, Eq, Structural)]
pub enum ClassKey {
    /// The row class that takes no delegate.
    Plain,
    /// The row class for one delegate type.
    Delegate(u64),
}

/// The character for one hexadecimal digit.
pub open spec fn hex_char(digit: nat) -> char {
    if digit == 0 {
        '0'
    } else if digit == 1 {
        '1'
    } else if digit == 2 {
        '2'
    } else if digit == 3 {
        '3'
    } else if digit == 4 {
        '4'
    } else if digit == 5 {
        '5'
    } else if digit == 6 {
        '6'
    } else if digit == 7 {
        '7'
    } else if digit == 8 {
        '8'
    } else if digit == 9 {
        '9'
    } else if digit == 10 {
        'a'
    } else if digit == 11 {
        'b'
    } else if digit == 12 {
        'c'
    } else if digit == 13 {
        'd'
    } else if digit == 14 {
        'e'
    } else {
        'f'
    }
}

/// The last `width` hexadecimal digits of `n`, most significant first.
pub open spec fn hex_digits(n: nat, width: nat) -> Seq<char>
    decreases width,
{
    if width == 0 {
        Seq::empty()
    } else {
        hex_digits(n / 16, (width - 1) as nat).push(hex_char(n % 16))
    }
}

/// Whether `n` can be written in `width` hexadecimal digits.
pub open spec fn fits_hex(n: nat, width: nat) -> bool
    decreases width,
{
    if width == 0 {
        n == 0
    } else {
        fits_hex(n / 16, (width - 1) as nat)
    }
}

/// Numbers that fit into the same width and are written alike are equal.
pub proof fn lemma_hex_digits_injective(a: nat, b: nat, width: nat)
    requires
        fits_hex(a, width),
        fits_hex(b, width),
        hex_digits(a, width) == hex_digits(b, width),
    ensures
        a == b,
    decreases width,
{
    if width > 0 {
        let w = (width - 1) as nat;
        let da = hex_digits(a / 16, w);
        let db = hex_digits(b / 16, w);
        assert(da.push(hex_char(a % 16)).last() == hex_char(a % 16));
        assert(db.push(hex_char(b % 16)).last() == hex_char(b % 16));
        assert(hex_char(a % 16) == hex_char(b % 16));
        assert(a % 16 == b % 16);
        assert(da =~= da.push(hex_char(a % 16)).drop_last());
        assert(db =~= db.push(hex_char(b % 16)).drop_last());
        lemma_hex_digits_injective(a / 16, b / 16, w);
    }
}

/// Sixteen hexadecimal digits hold every `u64`.
pub proof fn lemma_u64_fits_hex(n: u64)
    ensures
        fits_hex(n as nat, 16),
{
    reveal_with_fuel(fits_hex, 17);
}

/// The name of the row class that takes no delegate.
pub open spec fn plain_class_name() -> Seq<char> {
    "RSTTableViewRow"@
}

/// What every name of a row class with a delegate starts with.
pub open spec fn delegate_class_stem() -> Seq<char> {
    "RSTableViewRowWithDelegate_"@
}

/// The name under which the class for `key` is registered.
pub open spec fn spec_class_name(key: ClassKey) -> Seq<char> {
    match key {
        ClassKey::Plain => plain_class_name(),
        ClassKey::Delegate(id) => delegate_class_stem() + hex_digits(id as nat, 16),
    }
}

/// Distinct classes are registered under distinct names: the names of two
/// delegate types never collide, and neither collides with the name of the
/// class without a delegate.
pub proof fn class_names_never_collide(a: ClassKey, b: ClassKey)
    requires
        a != b,
    ensures
        spec_class_name(a) != spec_class_name(b),
{
    reveal_strlit("RSTTableViewRow");
    reveal_strlit("RSTableViewRowWithDelegate_");
    let stem = delegate_class_stem();
    match (a, b) {
        (ClassKey::Delegate(x), ClassKey::Delegate(y)) => {
            let dx = hex_digits(x as nat, 16);
            let dy = hex_digits(y as nat, 16);
            if stem + dx == stem + dy {
                assert(dx =~= (stem + dx).subrange(stem.len() as int, (stem + dx).len() as int));
                assert(dy =~= (stem + dy).subrange(stem.len() as int, (stem + dy).len() as int));
                lemma_u64_fits_hex(x);
                lemma_u64_fits_hex(y);
                lemma_hex_digits_injective(x as nat, y as nat, 16);
            }
        },
        (ClassKey::Plain, ClassKey::Delegate(y)) => {
            assert(plain_class_name()[3] == 'T');
            assert((stem + hex_digits(y as nat, 16))[3] == 'a');
        },
        (ClassKey::Delegate(x), ClassKey::Plain) => {
            assert(plain_class_name()[3] == 'T');
            assert((stem + hex_digits(x as nat, 16))[3] == 'a');
        },
        (ClassKey::Plain, ClassKey::Plain) => {},
    }
}

/// The text of one hexadecimal digit.
fn hex_digit_str(digit: u8) -> (text: &'static str)
    requires
        digit < 16,
    ensures
        text@ == seq![hex_char(digit as nat)],
{
    proof {
        reveal_strlit("0");
        reveal_strlit("1");
        reveal_strlit("2");
        reveal_strlit("3");
        reveal_strlit("4");
        reveal_strlit("5");
        reveal_strlit("6");
        reveal_strlit("7");
        reveal_strlit("8");
        reveal_strlit("9");
        reveal_strlit("a");
        reveal_strlit("b");
        reveal_strlit("c");
        reveal_strlit("d");
        reveal_strlit("e");
        reveal_strlit("f");
    }
    let text = match digit {
        0 => "0",
        1 => "1",
        2 => "2",
        3 => "3",
        4 => "4",
        5 => "5",
        6 => "6",
        7 => "7",
        8 => "8",
        9 => "9",
        10 => "a",
        11 => "b",
        12 => "c",
        13 => "d",
        14 => "e",
        _ => "f",
    };
    assert(text@ =~= seq![hex_char(digit as nat)]);
    text
}

/// Appends the last `width` hexadecimal digits of `n` to `text`.
fn push_hex(text: &mut String, n: u64, width: u8)
    ensures
        final(text)@ == old(text)@ + hex_digits(n as nat, width as nat),
    decreases width,
{
    if width > 0 {
        push_hex(text, n / 16, width - 1);
        let digit: u8 = (n % 16) as u8;
        text.append(hex_digit_str(digit));
        assert(text@ =~= old(text)@ + hex_digits(n as nat, width as nat));
    } else {
        assert(text@ =~= old(text)@ + hex_digits(n as nat, width as nat));
    }
}

/// The name under which the class for `key` is registered.
pub fn class_name(key: ClassKey) -> (name: String)
    ensures
        name@ == spec_class_name(key),
{
    match key {
        ClassKey::Plain => String::from_str("RSTTableViewRow"),
        ClassKey::Delegate(id) => {
            let mut name = String::from_str("RSTableViewRowWithDelegate_");
            push_hex(&mut name, id, 16);
            name
        },
    }
}

} // verus!
