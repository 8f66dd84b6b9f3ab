use vstd::prelude::*;
use vstd::string::StringSliceAdditionalSpecFns;

verus! {

/// The greatest number that an expression may hold.
pub const NUMBER_MAX: u64 = 2147483647;

/// The greatest step that a slice may have, in either direction: 2^30 - 1.
pub const STEP_MAX: u64 = 1073741823;

/// What is wrong with a number of an expression.
#[derive(Clone, Copy, Debug, PartialEq, Eq, Structural)]
pub enum Fault {
    /// The number is greater than [`NUMBER_MAX`].
    TooLarge,
    /// A `-` stands before a character that is not ASCII.
    Minus,
    /// The step of a slice is zero, or greater than [`STEP_MAX`].
    Step,
}

/// A number that is not allowed: the place in the text at which it begins,
/// and what is wrong with it.
#[derive(Clone, Copy, Debug, PartialEq, Eq, Structural)]
pub struct NumberFault {
    pub offset: usize,
    pub kind: Fault,
}

pub const DOUBLE_QUOTE: u8 = 34;

pub const SINGLE_QUOTE: u8 = 39;

pub const BACKTICK: u8 = 96;

pub const BACKSLASH: u8 = 92;

/// What a scan of an expression is in the middle of.
pub enum Mode {
    /// Between two tokens.
    Normal,
    /// In an identifier.
    Word,
    /// Behind an opening quote of this kind, and before the closing one.
    Inside(u8),
    /// In a number whose digits so far have this value.
    Number(nat),
}

/// A letter of an identifier's start: `a` to `z`, `A` to `Z`, and `_`.
pub open spec fn is_letter(c: u8) -> bool {
    (97 <= c <= 122) || (65 <= c <= 90) || c == 95
}

/// A decimal digit.
pub open spec fn is_digit(c: u8) -> bool {
    48 <= c <= 57
}

/// White space between tokens: the blank, the line feed, the tab and the
/// carriage return.
pub open spec fn is_blank(c: u8) -> bool {
    c == 32 || c == 10 || c == 9 || c == 13
}

/// A byte that is a token by itself: `. * @ ] { } ( ) ,`.
pub open spec fn is_single(c: u8) -> bool {
    c == 46 || c == 42 || c == 64 || c == 93 || c == 123 || c == 125 || c == 40 || c == 41 || c
        == 44
}

/// The byte that makes one token of two together with `c` before it, for the
/// bytes `| & > < !`.
pub open spec fn partner(c: u8) -> Option<u8> {
    if c == 124 {
        Some(124u8)
    } else if c == 38 {
        Some(38u8)
    } else if c == 62 || c == 60 || c == 33 {
        Some(61u8)
    } else {
        None
    }
}

/// The colons counted so far, and one more; three stands for any greater count.
pub open spec fn one_more(colons: Option<nat>) -> Option<nat> {
    match colons {
        Some(k) => Some(
            if k < 2 {
                k + 1
            } else {
                3
            },
        ),
        None => None,
    }
}

/// The first number that is not allowed which a scan of the bytes from place
/// `i` on reads before it comes to its end, or to a byte at which no token
/// begins: the place where that number begins, and what is wrong with it. The
/// scan begins in `mode`; `colons` is there while it has read nothing but
/// numbers, colons and white space since an opening bracket, and counts the
/// colons; `start` is where the number begins that the scan is in.
///
/// Not allowed are a number greater than [`NUMBER_MAX`], a `-` before a byte
/// that is not ASCII, and a number behind the second colon in a bracket, which
/// is the step of a slice, that is zero or greater than [`STEP_MAX`].
pub open spec fn scan(b: Seq<u8>, i: int, mode: Mode, colons: Option<nat>, start: int) -> Option<
    (int, Fault),
>
    decreases b.len() - i + 1,
{
    if mode is Number && mode->Number_0 > NUMBER_MAX {
        Some((start, Fault::TooLarge))
    } else if i < 0 || i >= b.len() {
        None
    } else if mode is Inside {
        if b[i] == mode->Inside_0 {
            scan(b, i + 1, Mode::Normal, None, start)
        } else if b[i] == BACKSLASH {
            scan(b, i + 2, mode, None, start)
        } else {
            scan(b, i + 1, mode, None, start)
        }
    } else if mode is Word && (is_letter(b[i]) || is_digit(b[i])) {
        scan(b, i + 1, Mode::Word, None, start)
    } else if mode is Number && is_digit(b[i]) {
        scan(b, i + 1, Mode::Number(mode->Number_0 * 10 + (b[i] - 48) as nat), colons, start)
    } else if mode is Number && colons == Some(2nat) && (mode->Number_0 == 0 || mode->Number_0
        > STEP_MAX) {
        Some((start, Fault::Step))
    } else if is_letter(b[i]) {
        scan(b, i + 1, Mode::Word, None, start)
    } else if b[i] == DOUBLE_QUOTE || b[i] == SINGLE_QUOTE || b[i] == BACKTICK {
        scan(b, i + 1, Mode::Inside(b[i]), None, start)
    } else if is_digit(b[i]) {
        scan(b, i + 1, Mode::Number((b[i] - 48) as nat), colons, i)
    } else if b[i] == 45 {
        if i + 1 < b.len() && 49 <= b[i + 1] <= 57 {
            scan(b, i + 2, Mode::Number((b[i + 1] - 48) as nat), colons, i)
        } else if i + 1 < b.len() && b[i + 1] >= 128 {
            Some((i, Fault::Minus))
        } else {
            None
        }
    } else if b[i] == 61 {
        if i + 1 < b.len() && b[i + 1] == 61 {
            scan(b, i + 2, Mode::Normal, None, start)
        } else {
            None
        }
    } else if b[i] == 91 {
        if i + 1 < b.len() && (b[i + 1] == 93 || b[i + 1] == 63) {
            scan(b, i + 2, Mode::Normal, None, start)
        } else {
            scan(b, i + 1, Mode::Normal, Some(0nat), start)
        }
    } else if partner(b[i]) is Some {
        if i + 1 < b.len() && b[i + 1] == partner(b[i])->0 {
            scan(b, i + 2, Mode::Normal, None, start)
        } else {
            scan(b, i + 1, Mode::Normal, None, start)
        }
    } else if b[i] == 58 {
        scan(b, i + 1, Mode::Normal, one_more(colons), start)
    } else if is_blank(b[i]) {
        scan(b, i + 1, Mode::Normal, colons, start)
    } else if is_single(b[i]) {
        scan(b, i + 1, Mode::Normal, None, start)
    } else {
        None
    }
}

/// The first number of an expression's text that is not allowed, if there is
/// one.
pub open spec fn first_fault(text: Seq<u8>) -> Option<(int, Fault)> {
    scan(text, 0, Mode::Normal, None, 0)
}

/// Whether every number that a tokenizer reads in the text of an expression,
/// up to the first place at which it gives up, is allowed: at most
/// [`NUMBER_MAX`], and neither zero nor greater than [`STEP_MAX`] where it is
/// the step of a slice.
pub open spec fn numbers_allowed(text: Seq<u8>) -> bool {
    first_fault(text) is None
}

/// What a fault is as a place and a kind.
pub open spec fn fault_view(fault: Option<NumberFault>) -> Option<(int, Fault)> {
    match fault {
        Some(f) => Some((f.offset as int, f.kind)),
        None => None,
    }
}

/// The state of the scan in executable form: the mode, with the number's
/// value in a machine integer.
enum State {
    Normal,
    Word,
    Inside(u8),
    Number(u64),
}

impl State {
    spec fn mode(self) -> Mode {
        match self {
            State::Normal => Mode::Normal,
            State::Word => Mode::Word,
            State::Inside(w) => Mode::Inside(w),
            State::Number(v) => Mode::Number(v as nat),
        }
    }
}

/// The count of colons as a number with no bound.
spec fn colons_view(colons: Option<u8>) -> Option<nat> {
    match colons {
        Some(k) => Some(k as nat),
        None => None,
    }
}

/// Looks for a number that is not allowed: gives the first one that the scan
/// of the expression meets, as [`first_fault`] says, or nothing where the
/// numbers of the expression are allowed.
pub fn find_number_not_allowed(expr: &str) -> (r: Option<NumberFault>)
    ensures
        fault_view(r) == first_fault(expr.spec_bytes()),
        r is Some ==> r->0.offset < expr.spec_bytes().len(),
{
    let b = expr.as_bytes();
    let n = b.len();
    let mut i: usize = 0;
    let mut start: usize = 0;
    let mut state = State::Normal;
    let mut colons: Option<u8> = None;
    while i < n
        invariant
            n == b@.len(),
            b@ == expr.spec_bytes(),
            i <= n,
            state is Number ==> state->Number_0 <= NUMBER_MAX && start < i,
            colons is Some ==> colons->0 <= 3,
            start <= i,
            first_fault(b@) == scan(
                b@,
                i as int,
                state.mode(),
                colons_view(colons),
                start as int,
            ),
        decreases n - i,
    {
        let c = b[i];
        let letter = (97 <= c && c <= 122) || (65 <= c && c <= 90) || c == 95;
        let digit = 48 <= c && c <= 57;
        let next: Option<u8> = if i + 1 < n {
            Some(b[i + 1])
        } else {
            None
        };
        match state {
            State::Inside(w) => {
                colons = None;
                if c == w {
                    state = State::Normal;
                    i += 1;
                } else if c == BACKSLASH {
                    if i + 1 < n {
                        i += 2;
                    } else {
                        assert(scan(b@, i + 2, state.mode(), None, start as int) is None);
                        return None;
                    }
                } else {
                    i += 1;
                }
                continue ;
            },
            State::Word => {
                if letter || digit {
                    colons = None;
                    i += 1;
                    continue ;
                }
            },
            State::Number(v) => {
                if digit {
                    let value: u64 = v * 10 + (c - 48) as u64;
                    if value > NUMBER_MAX {
                        assert(scan(
                            b@,
                            i + 1,
                            Mode::Number(value as nat),
                            colons_view(colons),
                            start as int,
                        ) == Some((start as int, Fault::TooLarge)));
                        return Some(NumberFault { offset: start, kind: Fault::TooLarge });
                    }
                    state = State::Number(value);
                    i += 1;
                    continue ;
                }
                if colons == Some(2u8) && (v == 0 || v > STEP_MAX) {
                    return Some(NumberFault { offset: start, kind: Fault::Step });
                }
            },
            State::Normal => {},
        }
        if letter {
            state = State::Word;
            colons = None;
            i += 1;
        } else if c == DOUBLE_QUOTE || c == SINGLE_QUOTE || c == BACKTICK {
            state = State::Inside(c);
            colons = None;
            i += 1;
        } else if digit {
            state = State::Number((c - 48) as u64);
            start = i;
            i += 1;
        } else if c == 45 {
            match next {
                Some(d) => {
                    if 49 <= d && d <= 57 {
                        state = State::Number((d - 48) as u64);
                        start = i;
                        i += 2;
                    } else if d < 128 {
                        return None;
                    } else {
                        return Some(NumberFault { offset: i, kind: Fault::Minus });
                    }
                },
                None => {
                    return None;
                },
            }
        } else if c == 61 {
            if next == Some(61u8) {
                state = State::Normal;
                colons = None;
                i += 2;
            } else {
                return None;
            }
        } else if c == 91 {
            state = State::Normal;
            if next == Some(93u8) || next == Some(63u8) {
                colons = None;
                i += 2;
            } else {
                colons = Some(0);
                i += 1;
            }
        } else if c == 124 || c == 38 || c == 62 || c == 60 || c == 33 {
            let expected: u8 = if c == 124 {
                124
            } else if c == 38 {
                38
            } else {
                61
            };
            state = State::Normal;
            colons = None;
            if next == Some(expected) {
                i += 2;
            } else {
                i += 1;
            }
        } else if c == 58 {
            state = State::Normal;
            colons = match colons {
                Some(k) => Some(
                    if k < 2 {
                        k + 1
                    } else {
                        3
                    },
                ),
                None => None,
            };
            i += 1;
        } else if c == 32 || c == 10 || c == 9 || c == 13 {
            state = State::Normal;
            i += 1;
        } else if c == 46 || c == 42 || c == 64 || c == 93 || c == 123 || c == 125 || c == 40 || c
            == 41 || c == 44 {
            state = State::Normal;
            colons = None;
            i += 1;
        } else {
            return None;
        }
    }
    None
}

} // verus!
