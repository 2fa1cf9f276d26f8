//! Quality configurations.

use vstd::prelude::*;
use std::cmp::Ordering;

verus! {

/// A quality configuration of the encoder.
#[derive(Debug, PartialEq, Eq, Structural, Ord, Clone, Copy, Hash)]
pub struct VideoConfig {
    pub width: usize,
    pub skip: usize,
    pub quant: usize,
}

/// The character of a decimal digit.
pub open spec fn digit_char(d: int) -> char {
    if d == 0 {
        '0'
    } else if d == 1 {
        '1'
    } else if d == 2 {
        '2'
    } else if d == 3 {
        '3'
    } else if d == 4 {
        '4'
    } else if d == 5 {
        '5'
    } else if d == 6 {
        '6'
    } else if d == 7 {
        '7'
    } else if d == 8 {
        '8'
    } else {
        '9'
    }
}

/// The decimal numeral of `n`, without leading zeros.
pub open spec fn decimal(n: nat) -> Seq<char>
    decreases n,
{
    if n < 10 {
        seq![digit_char(n as int)]
    } else {
        decimal(n / 10).push(digit_char((n % 10) as int))
    }
}

/// How a configuration is written: width, skip and quantiser, with an `x`
/// between them.
pub open spec fn rendered(c: VideoConfig) -> Seq<char> {
    decimal(c.width as nat) + seq!['x'] + decimal(c.skip as nat) + seq!['x'] + decimal(
        c.quant as nat,
    )
}

fn digit_str(d: usize) -> (s: &'static str)
    requires
        d < 10,
    ensures
        s@ == seq![digit_char(d as int)],
{
    proof {
        reveal_strlit("0");
        reveal_strlit("1");
        reveal_strlit("2");
        reveal_strlit("3");
        reveal_strlit("4");
        reveal_strlit("5");
        reveal_strlit("6");
        reveal_strlit("7");
        reveal_strlit("8");
        reveal_strlit("9");
    }
    let s = match d {
        0 => "0",
        1 => "1",
        2 => "2",
        3 => "3",
        4 => "4",
        5 => "5",
        6 => "6",
        7 => "7",
        8 => "8",
        _ => "9",
    };
    assert(s@ =~= seq![digit_char(d as int)]);
    s
}

fn push_decimal(out: &mut String, n: usize)
    ensures
        final(out)@ == old(out)@ + decimal(n as nat),
    decreases n,
{
    if n >= 10 {
        push_decimal(out, n / 10);
    }
    out.append(digit_str(n % 10));
    proof {
        let before = old(out)@;
        if n >= 10 {
            assert(before + decimal((n / 10) as nat) + seq![digit_char((n % 10) as int)]
                =~= before + decimal(n as nat));
        } else {
            assert(before + seq![digit_char((n % 10) as int)] =~= before + decimal(n as nat));
        }
    }
}

impl VideoConfig {
    /// The configuration of width `w`, frame skip `s` and quantiser `q`.
    pub fn new(w: usize, s: usize, q: usize) -> (c: Self)
        ensures
            c.width == w,
            c.skip == s,
            c.quant == q,
    {
        VideoConfig { width: w, skip: s, quant: q }
    }

    /// The configuration as text, such as `1280x0x20`.
    pub fn to_string(&self) -> (text: String)
        ensures
            text@ == rendered(*self),
    {
        let mut text = String::new();
        proof {
            reveal_strlit("x");
        }
        push_decimal(&mut text, self.width);
        text.append("x");
        push_decimal(&mut text, self.skip);
        text.append("x");
        push_decimal(&mut text, self.quant);
        assert(text@ =~= rendered(*self)) by {
            assert("x"@ =~= seq!['x']);
        }
        text
    }
}

/// How two numbers compare.
pub open spec fn number_order(a: usize, b: usize) -> Ordering {
    if a < b {
        Ordering::Less
    } else if a > b {
        Ordering::Greater
    } else {
        Ordering::Equal
    }
}

/// How two configurations compare: by width, then by skip, then by
/// quantiser.
pub open spec fn config_order(a: VideoConfig, b: VideoConfig) -> Ordering {
    if a.width != b.width {
        number_order(a.width, b.width)
    } else if a.skip != b.skip {
        number_order(a.skip, b.skip)
    } else {
        number_order(a.quant, b.quant)
    }
}

fn compare_numbers(a: usize, b: usize) -> (r: Ordering)
    ensures
        r == number_order(a, b),
{
    if a < b {
        Ordering::Less
    } else if a > b {
        Ordering::Greater
    } else {
        Ordering::Equal
    }
}

impl PartialOrd for VideoConfig {
    fn partial_cmp(&self, other: &Self) -> (r: Option<Ordering>) {
        if self.width != other.width {
            Some(compare_numbers(self.width, other.width))
        } else if self.skip != other.skip {
            Some(compare_numbers(self.skip, other.skip))
        } else {
            Some(compare_numbers(self.quant, other.quant))
        }
    }
}

impl vstd::std_specs::cmp::PartialOrdSpecImpl for VideoConfig {
    open spec fn obeys_partial_cmp_spec() -> bool {
        true
    }

    open spec fn partial_cmp_spec(&self, other: &Self) -> Option<Ordering> {
        Some(config_order(*self, *other))
    }
}

/// The order of configurations is total: two configurations compare equal
/// exactly when they are the same, one is less exactly when the other is
/// greater, and less than carries over.
pub proof fn law_config_order_total(a: VideoConfig, b: VideoConfig, c: VideoConfig)
    ensures
        config_order(a, b) == Ordering::Equal <==> a == b,
        config_order(a, b) == Ordering::Less <==> config_order(b, a) == Ordering::Greater,
        config_order(a, b) == Ordering::Less && config_order(b, c) == Ordering::Less
            ==> config_order(a, c) == Ordering::Less,
{
}

} // verus!
