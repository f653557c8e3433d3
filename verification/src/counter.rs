//! A counter with one decimal place, shown on four seven-segment positions:
//! hundreds, tens and ones from the left, then the tenths.

use vstd::prelude::*;
use vstd::arithmetic::div_mod::lemma_div_denominator;

verus! {

/// What one position shows: a decimal digit, with or without its point.
#[derive(Clone, Copy, Debug, PartialEq, Eq, Structural)]
pub struct Shown {
    pub value: usize,
    pub point: bool,
}

/// The hundreds, tens and ones of a number, each taken modulo ten.
pub open spec fn digits_of(whole: int) -> Seq<int> {
    seq![whole / 100 % 10, whole / 10 % 10, whole % 10]
}

/// What position `place` of the whole part shows: its digit, once a digit
/// other than zero has stood at or left of it, and nothing before that. The
/// ones carry the decimal point.
pub open spec fn place_of(whole: int, place: int) -> Option<Shown> {
    let digits = digits_of(whole);
    if exists|left: int| 0 <= left <= place && digits[left] != 0 {
        Some(Shown { value: digits[place] as usize, point: place == 2 })
    } else {
        None
    }
}

/// The four positions for a count of `whole` and `tenths` tenths. A whole
/// part of zero shows as a single `0.`; otherwise leading zeros stay dark.
pub open spec fn frame_of(whole: int, tenths: usize) -> Seq<Option<Shown>> {
    let last = Some(Shown { value: tenths, point: false });
    if whole == 0 {
        seq![None, None, Some(Shown { value: 0, point: true }), last]
    } else {
        seq![place_of(whole, 0), place_of(whole, 1), place_of(whole, 2), last]
    }
}

/// Splits the whole part into hundreds, tens and ones.
pub fn counter_digits(int_part: usize) -> (digits: [usize; 3])
    ensures
        forall|place: int| 0 <= place < 3 ==> digits@[place] == digits_of(int_part as int)[place],
{
    let hundreds = int_part / 100;
    let tens = int_part / 10;
    proof {
        lemma_div_denominator(int_part as int, 100, 10);
        lemma_div_denominator(int_part as int, 10, 10);
    }
    assert(int_part / 1000 == hundreds / 10);
    assert(int_part / 100 == tens / 10);
    [
        (hundreds * 100 - int_part / 1000 * 1000) / 100,
        (tens * 10 - int_part / 100 * 100) / 10,
        int_part - tens * 10,
    ]
}

/// Works out what each of the four positions shows for a given count.
pub fn counter_frame(int_part: usize, dec_part: usize) -> (frame: [Option<Shown>; 4])
    ensures
        frame@ == frame_of(int_part as int, dec_part),
{
    let last = Some(Shown { value: dec_part, point: false });
    if int_part == 0 {
        let frame = [None, None, Some(Shown { value: 0, point: true }), last];
        assert(frame@ =~= frame_of(int_part as int, dec_part));
        return frame;
    }
    let digits = counter_digits(int_part);
    let mut frame: [Option<Shown>; 4] = [None, None, None, last];
    let mut hide_zeros = true;
    let mut place: usize = 0;
    while place <= 2
        invariant
            place <= 3,
            forall|at: int| 0 <= at < 3 ==> digits@[at] == digits_of(int_part as int)[at],
            hide_zeros == !exists|left: int|
                0 <= left < place && digits_of(int_part as int)[left] != 0,
            forall|at: int| 0 <= at < place ==> frame@[at] == place_of(int_part as int, at),
            forall|at: int| place <= at < 3 ==> frame@[at] == None::<Shown>,
            frame@[3] == last,
        decreases 3 - place,
    {
        if digits[place] != 0 || !hide_zeros {
            hide_zeros = false;
            frame[place] = Some(Shown { value: digits[place], point: place == 2 });
        }
        place += 1;
    }
    assert(frame@ =~= frame_of(int_part as int, dec_part));
    frame
}

/// Counts on by `step` tenths and carries whole units over.
pub fn counter_step(int_part: usize, dec_part: usize, step: usize) -> (next: (usize, usize))
    requires
        dec_part + step <= usize::MAX,
        int_part + (dec_part + step) / 10 <= usize::MAX,
    ensures
        next.0 == int_part + (dec_part + step) / 10,
        next.1 == (dec_part + step) % 10,
{
    let mut int_part = int_part;
    let mut dec_part = dec_part + step;
    if dec_part >= 10 {
        int_part += dec_part / 10;
        dec_part = dec_part % 10;
    }
    (int_part, dec_part)
}

} // verus!
