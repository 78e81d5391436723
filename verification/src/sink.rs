//! Labels for the files that frames are written to, such that the files
//! stand in the order of their frames.

use crate::driver::Frame;
use vstd::prelude::*;

verus! {

/// The number of digits that a label has at least.
pub const LABEL_WIDTH: u32 = 6;

/// The character for a digit.
pub open spec fn spec_digit(d: nat) -> char {
    if d == 0 {
        '0'
    } else if d == 1 {
        '1'
    } else if d == 2 {
        '2'
    } else if d == 3 {
        '3'
    } else if d == 4 {
        '4'
    } else if d == 5 {
        '5'
    } else if d == 6 {
        '6'
    } else if d == 7 {
        '7'
    } else if d == 8 {
        '8'
    } else {
        '9'
    }
}

/// The decimal digits of `n`, with zeros in front where they are fewer than
/// `width`.
pub open spec fn spec_padded(n: nat, width: nat) -> Seq<char>
    decreases n + width,
{
    if n < 10 && width <= 1 {
        seq![spec_digit(n)]
    } else {
        spec_padded(
            n / 10,
            if width > 0 {
                (width - 1) as nat
            } else {
                0
            },
        ).push(spec_digit(n % 10))
    }
}

/// The label of the frame with the given number.
pub open spec fn spec_label(sequence: nat) -> Seq<char> {
    spec_padded(sequence, LABEL_WIDTH as nat)
}

/// Whether `a` stands before `b` when texts are sorted: at the first place
/// where they differ `a` has the smaller character, or `a` ends there.
pub open spec fn sorts_before(a: Seq<char>, b: Seq<char>) -> bool
    decreases a.len(),
{
    if b.len() == 0 {
        false
    } else if a.len() == 0 {
        true
    } else if a[0] != b[0] {
        (a[0] as u32) < (b[0] as u32)
    } else {
        sorts_before(a.drop_first(), b.drop_first())
    }
}

/// `String::push`, which appends one character to the end of the string.
#[verifier::external_body]
fn string_push(text: &mut String, c: char)
    ensures
        final(text)@ == old(text)@.push(c),
{
    text.push(c);
}

/// The character for a digit.
fn digit(d: u64) -> (c: char)
    requires
        d < 10,
    ensures
        c == spec_digit(d as nat),
{
    if d == 0 {
        '0'
    } else if d == 1 {
        '1'
    } else if d == 2 {
        '2'
    } else if d == 3 {
        '3'
    } else if d == 4 {
        '4'
    } else if d == 5 {
        '5'
    } else if d == 6 {
        '6'
    } else if d == 7 {
        '7'
    } else if d == 8 {
        '8'
    } else {
        '9'
    }
}

/// Appends the decimal digits of `n`, with zeros in front where they are
/// fewer than `width`.
fn push_padded(text: &mut String, n: u64, width: u32)
    ensures
        final(text)@ == old(text)@ + spec_padded(n as nat, width as nat),
    decreases n + width,
{
    if n < 10 && width <= 1 {
        string_push(text, digit(n));
    } else {
        let rest = if width > 0 {
            width - 1
        } else {
            0
        };
        push_padded(text, n / 10, rest);
        string_push(text, digit(n % 10));
    }
}

/// The label of the frame with the given number: the number in decimal
/// digits, with zeros in front up to six digits.
pub fn label(sequence: u64) -> (text: String)
    ensures
        text@ == spec_label(sequence as nat),
{
    let mut text = String::new();
    push_padded(&mut text, sequence, LABEL_WIDTH);
    text
}

impl Frame {
    /// The label of this frame.
    pub fn label(&self) -> (text: String)
        ensures
            text@ == spec_label(self@.sequence),
    {
        label(self.sequence)
    }
}

/// A digit sorts as its value does.
proof fn lemma_digits_sort(a: nat, b: nat)
    requires
        a < 10,
        b < 10,
    ensures
        (spec_digit(a) as u32) < (spec_digit(b) as u32) <==> a < b,
        spec_digit(a) == spec_digit(b) <==> a == b,
{
}

/// Texts of one length with one more character each sort by what stood
/// before, and by the new characters where that was the same.
proof fn lemma_sorts_before_push(a: Seq<char>, x: char, b: Seq<char>, y: char)
    requires
        a.len() == b.len(),
    ensures
        sorts_before(a.push(x), b.push(y)) <==> sorts_before(a, b) || (a == b && (x as u32) < (
        y as u32)),
    decreases a.len(),
{
    if a.len() == 0 {
        assert(a =~= b);
        assert(!sorts_before(a.push(x).drop_first(), b.push(y).drop_first()));
    } else {
        assert(a.push(x).drop_first() =~= a.drop_first().push(x));
        assert(b.push(y).drop_first() =~= b.drop_first().push(y));
        lemma_sorts_before_push(a.drop_first(), x, b.drop_first(), y);
        if a[0] == b[0] {
            if a.drop_first() == b.drop_first() {
                assert(a =~= seq![a[0]] + a.drop_first());
                assert(b =~= seq![b[0]] + b.drop_first());
            }
        }
    }
}

/// Padded digits of one length sort as their numbers do.
pub proof fn lemma_padded_sort_as_numbers(a: nat, b: nat, width: nat)
    requires
        a < b,
        spec_padded(a, width).len() == spec_padded(b, width).len(),
    ensures
        sorts_before(spec_padded(a, width), spec_padded(b, width)),
    decreases b + width,
{
    let rest: nat = if width > 0 {
        (width - 1) as nat
    } else {
        0
    };
    if b < 10 && width <= 1 {
        lemma_digits_sort(a, b);
    } else if a < 10 && width <= 1 {
        assert(spec_padded(b / 10, rest).len() == 0);
    } else {
        let x = spec_digit(a % 10);
        let y = spec_digit(b % 10);
        lemma_digits_sort(a % 10, b % 10);
        lemma_sorts_before_push(spec_padded(a / 10, rest), x, spec_padded(b / 10, rest), y);
        if a / 10 < b / 10 {
            lemma_padded_sort_as_numbers(a / 10, b / 10, rest);
        }
    }
}

/// Below a million, every label has six digits.
pub proof fn lemma_label_len(sequence: nat)
    requires
        sequence < 1_000_000,
    ensures
        spec_label(sequence).len() == 6,
{
    reveal_with_fuel(spec_padded, 7);
}

/// The labels of frames sort as the frames' numbers do, for numbers below a
/// million: sorted by their labels, the files stand in the order in which the
/// frames were handed out.
pub proof fn lemma_labels_sort_as_numbers(a: nat, b: nat)
    requires
        a < b < 1_000_000,
    ensures
        sorts_before(spec_label(a), spec_label(b)),
{
    lemma_label_len(a);
    lemma_label_len(b);
    lemma_padded_sort_as_numbers(a, b, LABEL_WIDTH as nat);
}

} // verus!
