use vstd::prelude::*;
use vstd::string::StringExecFns;
use crate::mutator::COMPLEXITY_UNIT;

verus! {

/// A handle to an input held in the fuzzer's store.
#[derive(Clone, Copy, Debug, PartialEq, Eq, Structural)]
pub struct PoolStorageIndex(pub usize);

/// What a pool asks of the corpus after an observation: store the input
/// under `path` (a list of path components) if `add`, and drop `remove`.
pub struct CorpusDelta {
    pub path: Vec<String>,
    pub add: bool,
    pub remove: Vec<PoolStorageIndex>,
}

/// The decimal digit `d`.
pub open spec fn digit_char(d: int) -> char {
    if d == 0 {
        '0'
    } else if d == 1 {
        '1'
    } else if d == 2 {
        '2'
    } else if d == 3 {
        '3'
    } else if d == 4 {
        '4'
    } else if d == 5 {
        '5'
    } else if d == 6 {
        '6'
    } else if d == 7 {
        '7'
    } else if d == 8 {
        '8'
    } else {
        '9'
    }
}

/// The decimal notation of `n`, without leading zeros.
pub open spec fn decimal(n: nat) -> Seq<char>
    decreases n,
{
    if n < 10 {
        seq![digit_char(n as int)]
    } else {
        decimal(n / 10) + seq![digit_char((n % 10) as int)]
    }
}

/// The notation of the complexity `c` with four decimal places, such as `7.5000`.
pub open spec fn complexity_notation(c: u64) -> Seq<char> {
    let whole = c / COMPLEXITY_UNIT;
    let frac = c % COMPLEXITY_UNIT;
    decimal(whole as nat) + seq![
        '.',
        digit_char((frac / 1000) as int),
        digit_char((frac / 100 % 10) as int),
        digit_char((frac / 10 % 10) as int),
        digit_char((frac % 10) as int),
    ]
}

fn digit_str(d: u64) -> (r: &'static str)
    requires
        d < 10,
    ensures
        r@ == seq![digit_char(d as int)],
{
    if d == 0 {
        proof {
            reveal_strlit("0");
        }
        "0"
    } else if d == 1 {
        proof {
            reveal_strlit("1");
        }
        "1"
    } else if d == 2 {
        proof {
            reveal_strlit("2");
        }
        "2"
    } else if d == 3 {
        proof {
            reveal_strlit("3");
        }
        "3"
    } else if d == 4 {
        proof {
            reveal_strlit("4");
        }
        "4"
    } else if d == 5 {
        proof {
            reveal_strlit("5");
        }
        "5"
    } else if d == 6 {
        proof {
            reveal_strlit("6");
        }
        "6"
    } else if d == 7 {
        proof {
            reveal_strlit("7");
        }
        "7"
    } else if d == 8 {
        proof {
            reveal_strlit("8");
        }
        "8"
    } else {
        proof {
            reveal_strlit("9");
        }
        "9"
    }
}

fn push_decimal(s: &mut String, n: u64)
    ensures
        final(s)@ == old(s)@ + decimal(n as nat),
    decreases n,
{
    if n >= 10 {
        push_decimal(s, n / 10);
    }
    s.append(digit_str(n % 10));
    assert(final(s)@ =~= old(s)@ + decimal(n as nat));
}

/// The decimal notation of `n`.
pub fn decimal_string(n: u64) -> (r: String)
    ensures
        r@ == decimal(n as nat),
{
    let mut s = String::new();
    push_decimal(&mut s, n);
    assert(s@ =~= decimal(n as nat));
    s
}

/// The notation of the complexity `c` with four decimal places.
pub fn complexity_string(c: u64) -> (r: String)
    ensures
        r@ == complexity_notation(c),
{
    let mut s = String::new();
    push_decimal(&mut s, c / COMPLEXITY_UNIT);
    let frac = c % COMPLEXITY_UNIT;
    proof {
        reveal_strlit(".");
    }
    s.append(".");
    s.append(digit_str(frac / 1000));
    s.append(digit_str(frac / 100 % 10));
    s.append(digit_str(frac / 10 % 10));
    s.append(digit_str(frac % 10));
    assert(s@ =~= complexity_notation(c));
    s
}

} // verus!
