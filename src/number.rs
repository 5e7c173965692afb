use vstd::prelude::*;
use crate::token::Number;
use crate::writer::{lemma_put_put, lemma_put_empty, CssWriter};

verus! {

pub open spec fn digit_char(d: nat) -> char {
    ((d + 48) as u32) as char
}

/// The decimal digits of `n`, without leading zeros.
pub open spec fn digits(n: nat) -> Seq<char>
    decreases n,
{
    if n < 10 {
        seq![digit_char(n)]
    } else {
        digits(n / 10).push(digit_char(n % 10))
    }
}

/// The last `w` decimal digits of `n`, leading zeros included.
pub open spec fn padded(n: nat, w: nat) -> Seq<char>
    decreases w,
{
    if w == 0 {
        Seq::empty()
    } else {
        padded(n / 10, (w - 1) as nat).push(digit_char(n % 10))
    }
}

pub open spec fn pow10(e: nat) -> nat
    decreases e,
{
    if e == 0 {
        1
    } else {
        10 * pow10((e - 1) as nat)
    }
}

impl Number {
    /// The number as written: sign, whole part, and the fraction to its scale.
    pub open spec fn text(self) -> Seq<char> {
        (if self.negative() { seq!['-'] } else { Seq::empty() }) + digits(self.mantissa() / pow10(self.scale()))
            + (if self.scale() > 0 {
            seq!['.'] + padded(self.mantissa() % pow10(self.scale()), self.scale())
        } else {
            Seq::empty()
        })
    }
}

fn pow10_exec(e: u32) -> (r: u64)
    requires
        e <= 15,
    ensures
        r == pow10(e as nat),
        r >= 1,
{
    proof {
        reveal_with_fuel(pow10, 16);
    }
    match e {
        0 => 1,
        1 => 10,
        2 => 100,
        3 => 1_000,
        4 => 10_000,
        5 => 100_000,
        6 => 1_000_000,
        7 => 10_000_000,
        8 => 100_000_000,
        9 => 1_000_000_000,
        10 => 10_000_000_000,
        11 => 100_000_000_000,
        12 => 1_000_000_000_000,
        13 => 10_000_000_000_000,
        14 => 100_000_000_000_000,
        _ => 1_000_000_000_000_000,
    }
}

fn digit_exec(d: u32) -> (r: char)
    requires
        d < 10,
    ensures
        r == digit_char(d as nat),
{
    ((d as u8) + 48) as char
}

fn write_digits(n: u32, w: &mut CssWriter)
    ensures
        final(w)@ == old(w)@.put(digits(n as nat)),
    decreases n,
{
    if n >= 10 {
        let ghost w0 = w@;
        write_digits(n / 10, w);
        w.write_char(digit_exec(n % 10));
        proof {
            lemma_put_put(w0, digits((n / 10) as nat), seq![digit_char((n % 10) as nat)]);
            assert(digits((n / 10) as nat) + seq![digit_char((n % 10) as nat)] =~= digits(n as nat));
        }
    } else {
        w.write_char(digit_exec(n));
    }
}

fn write_padded(n: u32, width: u32, w: &mut CssWriter)
    ensures
        final(w)@ == old(w)@.put(padded(n as nat, width as nat)),
    decreases width,
{
    if width > 0 {
        let ghost w0 = w@;
        write_padded(n / 10, width - 1, w);
        w.write_char(digit_exec(n % 10));
        proof {
            lemma_put_put(w0, padded((n / 10) as nat, (width - 1) as nat), seq![digit_char((n % 10) as nat)]);
            assert(padded((n / 10) as nat, (width - 1) as nat) + seq![digit_char((n % 10) as nat)]
                =~= padded(n as nat, width as nat));
        }
    } else {
        proof {
            lemma_put_empty(w@);
        }
    }
}

impl Number {
    pub fn write_css(&self, w: &mut CssWriter)
        ensures
            final(w)@ == old(w)@.put(self.text()),
    {
        let ghost w0 = w@;
        let m = self.mantissa_exec();
        let scale = self.scale_exec();
        let p = pow10_exec(scale);
        proof {
            assert(m as int % p as int <= m as int) by (nonlinear_arith)
                requires
                    p >= 1,
                    m >= 0,
            ;
            assert(m as int / p as int <= m as int) by (nonlinear_arith)
                requires
                    p >= 1,
                    m >= 0,
            ;
        }
        let whole = (m as u64 / p) as u32;
        let frac = (m as u64 % p) as u32;
        let ghost sign = if self.negative() { seq!['-'] } else { Seq::<char>::empty() };
        let ghost fr = if scale > 0 {
            seq!['.'] + padded(frac as nat, scale as nat)
        } else {
            Seq::<char>::empty()
        };
        if self.is_negative() {
            w.write_char('-');
        } else {
            proof {
                lemma_put_empty(w0);
            }
        }
        write_digits(whole, w);
        proof {
            lemma_put_put(w0, sign, digits(whole as nat));
        }
        if scale > 0 {
            w.write_char('.');
            write_padded(frac, scale, w);
            proof {
                lemma_put_put(w0, sign + digits(whole as nat), seq!['.']);
                lemma_put_put(w0, sign + digits(whole as nat) + seq!['.'], padded(frac as nat, scale as nat));
                assert(sign + digits(whole as nat) + seq!['.'] + padded(frac as nat, scale as nat)
                    =~= sign + digits(whole as nat) + fr);
            }
        } else {
            proof {
                assert(sign + digits(whole as nat) + fr =~= sign + digits(whole as nat));
            }
        }
    }
}

} // verus!
