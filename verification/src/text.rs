//! Decimal rendering of numbers, as `format!("{}")` and `format!("{:03}")` write them.
use vstd::prelude::*;

verus! {

/// The character of the decimal digit `d` (`d < 10`).
pub open spec fn digit_char(d: nat) -> char {
    if d == 0 {
        '0'
    } else if d == 1 {
        '1'
    } else if d == 2 {
        '2'
    } else if d == 3 {
        '3'
    } else if d == 4 {
        '4'
    } else if d == 5 {
        '5'
    } else if d == 6 {
        '6'
    } else if d == 7 {
        '7'
    } else if d == 8 {
        '8'
    } else {
        '9'
    }
}

/// The decimal digits of `n`, most significant first, without leading zeros
/// (`"0"` for zero).
pub open spec fn decimal(n: nat) -> Seq<char>
    decreases n,
{
    if n < 10 {
        seq![digit_char(n)]
    } else {
        decimal(n / 10).push(digit_char(n % 10))
    }
}

/// `s` padded on the left with zeros to at least `width` characters.
pub open spec fn zero_padded(s: Seq<char>, width: nat) -> Seq<char> {
    if s.len() < width {
        Seq::new((width - s.len()) as nat, |i: int| '0') + s
    } else {
        s
    }
}

/// The one-character string of the digit `d`.
fn digit_str(d: u8) -> (s: &'static str)
    requires
        d < 10,
    ensures
        s@ == seq![digit_char(d as nat)],
{
    proof {
        reveal_strlit("0");
        reveal_strlit("1");
        reveal_strlit("2");
        reveal_strlit("3");
        reveal_strlit("4");
        reveal_strlit("5");
        reveal_strlit("6");
        reveal_strlit("7");
        reveal_strlit("8");
        reveal_strlit("9");
    }
    if d == 0 {
        "0"
    } else if d == 1 {
        "1"
    } else if d == 2 {
        "2"
    } else if d == 3 {
        "3"
    } else if d == 4 {
        "4"
    } else if d == 5 {
        "5"
    } else if d == 6 {
        "6"
    } else if d == 7 {
        "7"
    } else if d == 8 {
        "8"
    } else {
        "9"
    }
}

/// Appends the decimal digits of `n`, zero-padded to at least `width`, to `s`.
pub fn push_decimal(s: &mut String, n: u128, width: usize)
    ensures
        final(s)@ == old(s)@ + zero_padded(decimal(n as nat), width as nat),
{
    // collect the digits, least significant first
    let mut digits: Vec<u8> = Vec::new();
    let mut m = n;
    let ghost mut done: Seq<char> = Seq::empty();
    while m >= 10
        invariant
            decimal(n as nat) == decimal(m as nat) + done,
            digits@.len() == done.len(),
            forall|i: int|
                0 <= i < digits@.len() ==> digits@[i] < 10 && done[done.len() - 1 - i]
                    == digit_char(#[trigger] digits@[i] as nat),
        decreases m,
    {
        let d = (m % 10) as u8;
        proof {
            assert(decimal(m as nat) == decimal((m / 10) as nat).push(digit_char((m % 10) as nat)));
        }
        digits.push(d);
        proof {
            let nd = seq![digit_char((m % 10) as nat)] + done;
            assert forall|i: int| 0 <= i < digits@.len() implies digits@[i] < 10 && nd[nd.len() - 1
                - i] == digit_char(#[trigger] digits@[i] as nat) by {
                if i < digits@.len() - 1 {
                    assert(nd[nd.len() - 1 - i] == done[done.len() - 1 - i]);
                }
            }
            assert(decimal((m / 10) as nat).push(digit_char((m % 10) as nat)) + done
                =~= decimal((m / 10) as nat) + nd);
            done = nd;
        }
        m = m / 10;
    }
    let d = m as u8;
    proof {
        assert(decimal(m as nat) == seq![digit_char(m as nat)]);
    }
    digits.push(d);
    proof {
        let nd = seq![digit_char(m as nat)] + done;
        assert forall|i: int| 0 <= i < digits@.len() implies digits@[i] < 10 && nd[nd.len() - 1
            - i] == digit_char(#[trigger] digits@[i] as nat) by {
            if i < digits@.len() - 1 {
                assert(nd[nd.len() - 1 - i] == done[done.len() - 1 - i]);
            }
        }
        done = nd;
    }
    // `done` is now the whole decimal representation
    let ghost start = s@;
    let mut pad = digits.len();
    while pad < width
        invariant
            digits@.len() <= pad <= width || (pad == digits@.len() && pad >= width),
            s@ == start + Seq::new((pad - digits@.len()) as nat, |i: int| '0'),
        decreases width - pad,
    {
        let ghost before = s@;
        s.append("0");
        proof {
            reveal_strlit("0");
            assert(s@ =~= start + Seq::new((pad + 1 - digits@.len()) as nat, |i: int| '0'));
        }
        pad = pad + 1;
    }
    let ghost padded = s@;
    let mut k = digits.len();
    while k > 0
        invariant
            k <= digits@.len(),
            digits@.len() == done.len(),
            forall|i: int|
                0 <= i < digits@.len() ==> digits@[i] < 10 && done[done.len() - 1 - i]
                    == digit_char(#[trigger] digits@[i] as nat),
            s@ == padded + done.subrange(0, (digits@.len() - k) as int),
        decreases k,
    {
        k = k - 1;
        let d = digits[k];
        s.append(digit_str(d));
        proof {
            let j = (digits@.len() - 1 - k) as int;
            assert(done[j] == digit_char(d as nat));
            assert(done.subrange(0, j + 1) =~= done.subrange(0, j).push(done[j]));
        }
    }
    proof {
        assert(done.subrange(0, done.len() as int) =~= done);
        assert(decimal(n as nat) == done);
        if done.len() < width {
            assert(s@ =~= start + zero_padded(done, width as nat));
        } else {
            assert(Seq::new((pad - digits@.len()) as nat, |i: int| '0') =~= Seq::<char>::empty());
            assert(s@ =~= start + zero_padded(done, width as nat));
        }
    }
}

} // verus!
