//! The message log and the pieces its messages are built from.

use vstd::prelude::*;
use vstd::string::*;

verus! {

/// The character of the digit `d`.
pub open spec fn digit(d: int) -> char {
    if d == 0 {
        '0'
    } else if d == 1 {
        '1'
    } else if d == 2 {
        '2'
    } else if d == 3 {
        '3'
    } else if d == 4 {
        '4'
    } else if d == 5 {
        '5'
    } else if d == 6 {
        '6'
    } else if d == 7 {
        '7'
    } else if d == 8 {
        '8'
    } else {
        '9'
    }
}

/// The digits of `n`, the most significant first, without leading zeros.
pub open spec fn digits(n: nat) -> Seq<char>
    decreases n,
{
    if n < 10 {
        seq![digit(n as int)]
    } else {
        digits(n / 10).push(digit((n % 10) as int))
    }
}

/// The decimal text of an integer: its digits, after a minus sign if it
/// is negative.
pub open spec fn decimal(n: int) -> Seq<char> {
    if n < 0 {
        seq!['-'] + digits((-n) as nat)
    } else {
        digits(n as nat)
    }
}

/// The characters of the digits `ds`, the last of them first.
pub open spec fn digits_reversed(ds: Seq<u8>) -> Seq<char>
    decreases ds.len(),
{
    if ds.len() == 0 {
        Seq::empty()
    } else {
        seq![digit(ds.last() as int)] + digits_reversed(ds.drop_last())
    }
}

/// The text of one digit.
fn digit_str(d: u8) -> (s: &'static str)
    requires
        d < 10,
    ensures
        s@ == seq![digit(d as int)],
{
    proof {
        reveal_strlit("0");
        reveal_strlit("1");
        reveal_strlit("2");
        reveal_strlit("3");
        reveal_strlit("4");
        reveal_strlit("5");
        reveal_strlit("6");
        reveal_strlit("7");
        reveal_strlit("8");
        reveal_strlit("9");
    }
    let s = if d == 0 {
        "0"
    } else if d == 1 {
        "1"
    } else if d == 2 {
        "2"
    } else if d == 3 {
        "3"
    } else if d == 4 {
        "4"
    } else if d == 5 {
        "5"
    } else if d == 6 {
        "6"
    } else if d == 7 {
        "7"
    } else if d == 8 {
        "8"
    } else {
        "9"
    };
    assert(s@ =~= seq![digit(d as int)]);
    s
}

/// Writes `n` in decimal.
pub fn decimal_string(n: i128) -> (s: String)
    ensures
        s@ == decimal(n as int),
{
    let size: u128 = if n < 0 {
        (-(n + 1)) as u128 + 1
    } else {
        n as u128
    };
    let ghost sign: Seq<char> = if n < 0 {
        seq!['-']
    } else {
        Seq::empty()
    };
    assert(decimal(n as int) == sign + digits(size as nat));
    let mut lower: Vec<u8> = Vec::new();
    let mut rest: u128 = size;
    assert(digits(size as nat) =~= digits(rest as nat) + digits_reversed(lower@));
    while rest >= 10
        invariant
            digits(size as nat) == digits(rest as nat) + digits_reversed(lower@),
            forall|k: int| 0 <= k < lower.len() ==> lower[k] < 10,
        decreases rest,
    {
        let d = (rest % 10) as u8;
        let ghost before = lower@;
        lower.push(d);
        proof {
            assert(lower@.drop_last() =~= before);
            assert(digits(rest as nat) + digits_reversed(before) =~= digits((rest / 10) as nat)
                + digits_reversed(lower@));
        }
        rest = rest / 10;
    }
    proof {
        reveal_strlit("-");
    }
    let mut s = if n < 0 {
        String::from_str("-")
    } else {
        String::new()
    };
    assert(s@ =~= sign);
    s.append(digit_str(rest as u8));
    let mut i: usize = lower.len();
    assert(lower@.take(i as int) =~= lower@);
    while i > 0
        invariant
            0 <= i <= lower.len(),
            rest < 10,
            forall|k: int| 0 <= k < lower.len() ==> lower[k] < 10,
            sign + digits(rest as nat) + digits_reversed(lower@) == s@ + digits_reversed(
                lower@.take(i as int),
            ),
        decreases i,
    {
        i = i - 1;
        let ghost so_far = s@;
        s.append(digit_str(lower[i]));
        proof {
            assert(lower@.take(i as int + 1).drop_last() =~= lower@.take(i as int));
            assert(lower@.take(i as int + 1).last() == lower[i as int]);
            assert(so_far + digits_reversed(lower@.take(i as int + 1)) =~= s@ + digits_reversed(
                lower@.take(i as int),
            ));
        }
    }
    assert(lower@.take(0) =~= Seq::<u8>::empty());
    assert(s@ =~= sign + digits(size as nat));
    s
}

/// `decimal(n)`, with a leading zero where that is a single digit.
pub open spec fn decimal_two_wide(n: int) -> Seq<char> {
    if 0 <= n <= 9 {
        seq!['0'] + decimal(n)
    } else {
        decimal(n)
    }
}

/// Formats `n` in decimal, at least two characters wide, padded with a zero.
pub fn two_wide_string(n: i32) -> (s: String)
    ensures
        s@ == decimal_two_wide(n as int),
{
    if 0 <= n && n <= 9 {
        proof {
            reveal_strlit("0");
        }
        let mut s = String::from_str("0");
        let digits = decimal_string(n as i128);
        s.append(digits.as_str());
        assert(s@ =~= seq!['0'] + decimal(n as int));
        s
    } else {
        decimal_string(n as i128)
    }
}

/// An append-only sequence of messages, oldest first.
pub struct GameLog {
    pub entries: Vec<String>,
}

impl View for GameLog {
    type V = Seq<Seq<char>>;

    open spec fn view(&self) -> Seq<Seq<char>> {
        Seq::new(self.entries.len() as nat, |i: int| self.entries[i]@)
    }
}

impl GameLog {
    /// An empty log.
    pub fn new() -> (log: GameLog)
        ensures
            log@ == Seq::<Seq<char>>::empty(),
    {
        let log = GameLog { entries: Vec::new() };
        assert(log@ =~= Seq::<Seq<char>>::empty());
        log
    }

    /// Appends one message.
    pub fn push(&mut self, message: String)
        ensures
            final(self)@ == old(self)@.push(message@),
    {
        self.entries.push(message);
        assert(self@ =~= old(self)@.push(message@));
    }

    /// Appends one message given as a string slice.
    pub fn push_str(&mut self, message: &str)
        ensures
            final(self)@ == old(self)@.push(message@),
    {
        self.push(String::from_str(message));
    }
}

} // verus!
