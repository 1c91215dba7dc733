use vstd::prelude::*;

verus! {

/// The character of a decimal digit.
pub open spec fn digit_char(d: nat) -> char
    recommends
        d < 10,
{
    seq!['0', '1', '2', '3', '4', '5', '6', '7', '8', '9'][d as int]
}

/// The decimal digits of `n`, most significant first, without leading zeros.
pub open spec fn nat_text(n: nat) -> Seq<char>
    decreases n,
{
    if n < 10 {
        seq![digit_char(n)]
    } else {
        nat_text(n / 10) + seq![digit_char(n % 10)]
    }
}

/// The decimal text of an integer: its digits, after a `-` when it is negative.
pub open spec fn int_text(v: int) -> Seq<char> {
    if v < 0 {
        seq!['-'] + nat_text((-v) as nat)
    } else {
        nat_text(v as nat)
    }
}

/// Types with a text form.
pub trait Textual: Sized {
    /// The text of `self`.
    spec fn spec_text(&self) -> Seq<char>;

    fn to_string(&self) -> (r: String)
        ensures
            r@ == self.spec_text(),
    ;
}

/// The one-character string of the digit `d`.
fn digit_str(d: u64) -> (r: &'static str)
    requires
        d < 10,
    ensures
        r@ == seq![digit_char(d as nat)],
{
    proof {
        reveal_strlit("0");
        reveal_strlit("1");
        reveal_strlit("2");
        reveal_strlit("3");
        reveal_strlit("4");
        reveal_strlit("5");
        reveal_strlit("6");
        reveal_strlit("7");
        reveal_strlit("8");
        reveal_strlit("9");
    }
    if d == 0 {
        "0"
    } else if d == 1 {
        "1"
    } else if d == 2 {
        "2"
    } else if d == 3 {
        "3"
    } else if d == 4 {
        "4"
    } else if d == 5 {
        "5"
    } else if d == 6 {
        "6"
    } else if d == 7 {
        "7"
    } else if d == 8 {
        "8"
    } else {
        "9"
    }
}

/// The decimal digits of `n`.
pub(crate) fn u64_text(n: u64) -> (r: String)
    ensures
        r@ == nat_text(n as nat),
{
    let mut s = String::new();
    let mut m: u64 = n;
    loop
        invariant
            nat_text(n as nat) == nat_text(m as nat) + s@,
        decreases m,
    {
        let d = m % 10;
        let t = join(String::from_str(digit_str(d)), s.as_str());
        proof {
            if m >= 10 {
                assert(nat_text(m as nat) == nat_text((m / 10) as nat) + seq![digit_char(d as nat)]);
                assert(nat_text(n as nat) =~= nat_text((m / 10) as nat) + t@);
            } else {
                assert(nat_text(n as nat) =~= t@);
            }
        }
        s = t;
        if m < 10 {
            return s;
        }
        m = m / 10;
    }
}

/// The decimal text of `v`: its digits, after a `-` when it is negative.
pub(crate) fn i64_text(v: i64) -> (r: String)
    ensures
        r@ == int_text(v as int),
{
    if v >= 0 {
        u64_text(v as u64)
    } else {
        let m = (-(v as i128)) as u64;
        let digits = u64_text(m);
        proof {
            reveal_strlit("-");
        }
        join(String::from_str("-"), digits.as_str())
    }
}

/// The concatenation of two strings.
pub(crate) fn join(a: String, b: &str) -> (r: String)
    ensures
        r@ == a@ + b@,
{
    a.concat(b)
}

} // verus!
