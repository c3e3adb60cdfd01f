use crate::try_fold::FoldStep;
use crate::try_fold::ValueMapper;
use crate::valid::Valid;
use vstd::prelude::*;
use vstd::string::StrSliceExecFns;
use vstd::string::StringExecFns;

verus! {

/// What an arithmetic fold step computes from the input `a` and the state
/// `b`: their sum, their product, or their product scaled by a hundred.
pub enum ArithOp {
    Sum,
    Product,
    ProductScaled,
}

/// A fold step over integer state that either succeeds with the computed
/// value or fails carrying it as the error sentinel.  These steps make the
/// accumulation behaviour of the fold combinator directly observable.
pub struct ArithStep {
    pub op: ArithOp,
    pub fails: bool,
}

pub open spec fn arith_value(op: ArithOp, a: int, b: int) -> int {
    match op {
        ArithOp::Sum => a + b,
        ArithOp::Product => a * b,
        ArithOp::ProductScaled => a * b * 100,
    }
}

impl FoldStep for ArithStep {
    type In = i64;

    type St = i64;

    type Err = i64;

    open spec fn pre(self, input: i64, state: i64) -> bool {
        -1000000 <= input <= 1000000 && -1000000 <= state <= 1000000
    }

    open spec fn model(self, input: i64, state: i64) -> Result<i64, Seq<i64>> {
        let v = arith_value(self.op, input as int, state as int);
        if self.fails {
            Result::Err(seq![v as i64])
        } else {
            Result::Ok(v as i64)
        }
    }

    fn apply(&self, input: &i64, state: &i64) -> (r: Valid<i64, i64>) {
        let a = *input;
        let b = *state;
        proof {
            assert(-1000000000000 <= a as int * b as int <= 1000000000000) by (nonlinear_arith)
                requires
                    -1000000 <= a as int <= 1000000,
                    -1000000 <= b as int <= 1000000,
            ;
        }
        let v: i64 = match self.op {
            ArithOp::Sum => a + b,
            ArithOp::Product => a * b,
            ArithOp::ProductScaled => (a * b) * 100,
        };
        if self.fails {
            Valid::fail(v)
        } else {
            Valid::succeed(v)
        }
    }
}

pub open spec fn digit_char(d: int) -> char {
    if d == 0 {
        '0'
    } else if d == 1 {
        '1'
    } else if d == 2 {
        '2'
    } else if d == 3 {
        '3'
    } else if d == 4 {
        '4'
    } else if d == 5 {
        '5'
    } else if d == 6 {
        '6'
    } else if d == 7 {
        '7'
    } else if d == 8 {
        '8'
    } else {
        '9'
    }
}

pub open spec fn is_digit(c: char) -> bool {
    c == '0' || c == '1' || c == '2' || c == '3' || c == '4' || c == '5' || c == '6' || c == '7'
        || c == '8' || c == '9'
}

pub open spec fn digit_val(c: char) -> int {
    if c == '0' {
        0
    } else if c == '1' {
        1
    } else if c == '2' {
        2
    } else if c == '3' {
        3
    } else if c == '4' {
        4
    } else if c == '5' {
        5
    } else if c == '6' {
        6
    } else if c == '7' {
        7
    } else if c == '8' {
        8
    } else {
        9
    }
}

/// The decimal digits of a non-negative number, most significant first.
pub open spec fn dec_digits(n: nat) -> Seq<char>
    decreases n,
{
    if n < 10 {
        seq![digit_char(n as int)]
    } else {
        dec_digits(n / 10).push(digit_char((n % 10) as int))
    }
}

/// The decimal rendering of an integer, with a leading minus sign when
/// negative.
pub open spec fn dec_str(n: int) -> Seq<char> {
    if n >= 0 {
        dec_digits(n as nat)
    } else {
        seq!['-'] + dec_digits((-n) as nat)
    }
}

pub open spec fn all_digits(s: Seq<char>) -> bool {
    forall|i: int| 0 <= i < s.len() ==> is_digit(#[trigger] s[i])
}

/// The number a digit string denotes.
pub open spec fn dec_value(s: Seq<char>) -> int
    decreases s.len(),
{
    if s.len() == 0 {
        0
    } else {
        dec_value(s.drop_last()) * 10 + digit_val(s.last())
    }
}

pub open spec fn pow_ten(n: nat) -> int
    decreases n,
{
    if n == 0 {
        1
    } else {
        10 * pow_ten((n - 1) as nat)
    }
}

/// Maps integer state to its decimal text and back.  The backward direction
/// accepts plain digit strings of at most eighteen characters (so the value
/// always fits) and fails with a zero sentinel on anything else.
pub struct DecimalMapper {}

impl ValueMapper for DecimalMapper {
    type From = i64;

    type To = String;

    type Err = i64;

    open spec fn up_pre(self, o: i64) -> bool {
        true
    }

    open spec fn up_model(self, o: i64) -> Result<Seq<char>, Seq<i64>> {
        Result::Ok(dec_str(o as int))
    }

    open spec fn down_pre(self, o: Seq<char>) -> bool {
        true
    }

    open spec fn down_model(self, o: Seq<char>) -> Result<i64, Seq<i64>> {
        if 1 <= o.len() <= 18 && all_digits(o) {
            Result::Ok(dec_value(o) as i64)
        } else {
            Result::Err(seq![0i64])
        }
    }

    fn up(&self, o: &i64) -> (r: Valid<String, i64>) {
        let n = *o;
        let mut s = String::new();
        let mag: u64 = if n < 0 {
            s.append("-");
            proof {
                reveal_strlit("-");
            }
            ((-(n + 1)) as u64) + 1
        } else {
            n as u64
        };
        push_dec(&mut s, mag);
        proof {
            assert(s@ =~= dec_str(n as int));
        }
        Valid::succeed(s)
    }

    fn down(&self, o: &String) -> (r: Valid<i64, i64>) {
        let s = o.as_str();
        let len = s.unicode_len();
        if len == 0 || len > 18 {
            return Valid::fail(0);
        }
        let mut acc: i64 = 0;
        let mut i: usize = 0;
        proof {
            lemma_pow_ten_18();
        }
        while i < len
            invariant
                o.deep_view() == s@,
                len == s@.len(),
                1 <= len <= 18,
                0 <= i <= len,
                all_digits(s@.subrange(0, i as int)),
                0 <= acc < pow_ten(i as nat),
                acc == dec_value(s@.subrange(0, i as int)),
                pow_ten(18) == 1000000000000000000,
                pow_ten(i as nat) <= pow_ten(18),
            decreases len - i,
        {
            let c = s.get_char(i);
            let d: i64 = if c == '0' {
                0
            } else if c == '1' {
                1
            } else if c == '2' {
                2
            } else if c == '3' {
                3
            } else if c == '4' {
                4
            } else if c == '5' {
                5
            } else if c == '6' {
                6
            } else if c == '7' {
                7
            } else if c == '8' {
                8
            } else if c == '9' {
                9
            } else {
                proof {
                    assert(!is_digit(s@[i as int]));
                    assert(!all_digits(s@));
                    assert(!all_digits(o.deep_view()));
                }
                return Valid::fail(0);
            };
            proof {
                lemma_pow_ten_mono(i as nat, 17);
                assert(s@.subrange(0, i as int + 1).drop_last() =~= s@.subrange(0, i as int));
            }
            acc = acc * 10 + d;
            i = i + 1;
        }
        proof {
            assert(s@.subrange(0, len as int) =~= s@);
        }
        Valid::succeed(acc)
    }
}

proof fn lemma_pow_ten_18()
    ensures
        pow_ten(18) == 1000000000000000000,
{
    reveal_with_fuel(pow_ten, 20);
}

proof fn lemma_pow_ten_pos(n: nat)
    ensures
        pow_ten(n) >= 1,
    decreases n,
{
    if n > 0 {
        lemma_pow_ten_pos((n - 1) as nat);
    }
}

proof fn lemma_pow_ten_mono(a: nat, b: nat)
    requires
        a <= b,
    ensures
        pow_ten(a) <= pow_ten(b),
        pow_ten(a) >= 1,
    decreases b,
{
    lemma_pow_ten_pos(a);
    if a < b {
        lemma_pow_ten_mono(a, (b - 1) as nat);
    }
}

/// Appends the decimal digits of `n` to `s`.
fn push_dec(s: &mut String, n: u64)
    ensures
        final(s)@ == old(s)@ + dec_digits(n as nat),
    decreases n,
{
    if n >= 10 {
        push_dec(s, n / 10);
    }
    let d = n % 10;
    if d == 0 {
        s.append("0");
    } else if d == 1 {
        s.append("1");
    } else if d == 2 {
        s.append("2");
    } else if d == 3 {
        s.append("3");
    } else if d == 4 {
        s.append("4");
    } else if d == 5 {
        s.append("5");
    } else if d == 6 {
        s.append("6");
    } else if d == 7 {
        s.append("7");
    } else if d == 8 {
        s.append("8");
    } else {
        s.append("9");
    }
    proof {
        reveal_strlit("0");
        reveal_strlit("1");
        reveal_strlit("2");
        reveal_strlit("3");
        reveal_strlit("4");
        reveal_strlit("5");
        reveal_strlit("6");
        reveal_strlit("7");
        reveal_strlit("8");
        reveal_strlit("9");
        assert(s@ =~= old(s)@ + dec_digits(n as nat));
    }
}

} // verus!
