//! The identifiers that a node issues: its own name, a hyphen, and a local
//! counter written in decimal. Two of them are equal only where both the names
//! and the counters are.

use vstd::prelude::*;
use vstd::string::*;

verus! {

/// The character that stands for the digit `d`.
pub open spec fn digit(d: nat) -> char
    recommends
        d < 10,
{
    if d == 0 {
        '0'
    } else if d == 1 {
        '1'
    } else if d == 2 {
        '2'
    } else if d == 3 {
        '3'
    } else if d == 4 {
        '4'
    } else if d == 5 {
        '5'
    } else if d == 6 {
        '6'
    } else if d == 7 {
        '7'
    } else if d == 8 {
        '8'
    } else {
        '9'
    }
}

/// `n` in decimal, most significant digit first, without leading zeros.
pub open spec fn decimal(n: nat) -> Seq<char>
    decreases n,
{
    if n < 10 {
        seq![digit(n)]
    } else {
        decimal(n / 10).push(digit(n % 10))
    }
}

/// The identifier that the node named `identity` issues at `counter`.
pub open spec fn generated_id(identity: Seq<char>, counter: nat) -> Seq<char> {
    identity + seq!['-'] + decimal(counter)
}

/// The digit that `c` stands for.
pub open spec fn digit_value(c: char) -> nat {
    if c == '1' {
        1
    } else if c == '2' {
        2
    } else if c == '3' {
        3
    } else if c == '4' {
        4
    } else if c == '5' {
        5
    } else if c == '6' {
        6
    } else if c == '7' {
        7
    } else if c == '8' {
        8
    } else if c == '9' {
        9
    } else {
        0
    }
}

/// The number that a sequence of digits denotes.
pub open spec fn decimal_value(digits: Seq<char>) -> nat
    decreases digits.len(),
{
    if digits.len() == 0 {
        0
    } else {
        decimal_value(digits.drop_last()) * 10 + digit_value(digits.last())
    }
}

/// A number in decimal is at least one character long and holds no hyphen.
pub proof fn lemma_decimal_has_no_hyphen(n: nat)
    ensures
        decimal(n).len() >= 1,
        forall|i: int| 0 <= i < decimal(n).len() ==> decimal(n)[i] != '-',
    decreases n,
{
    if n >= 10 {
        lemma_decimal_has_no_hyphen(n / 10);
    }
}

/// Reading a number back from its decimal form gives the number.
pub proof fn lemma_decimal_value(n: nat)
    ensures
        decimal_value(decimal(n)) == n,
    decreases n,
{
    if n < 10 {
        assert(decimal(n).drop_last() =~= Seq::<char>::empty());
        assert(decimal_value(decimal(n).drop_last()) == 0);
    } else {
        lemma_decimal_value(n / 10);
        assert(decimal(n).drop_last() =~= decimal(n / 10));
    }
}

/// Different numbers have different decimal forms.
pub proof fn lemma_decimal_injective(m: nat, n: nat)
    requires
        decimal(m) == decimal(n),
    ensures
        m == n,
{
    lemma_decimal_value(m);
    lemma_decimal_value(n);
}

/// An identifier tells both the name and the counter it was made from.
pub proof fn lemma_generated_id_injective(a: Seq<char>, m: nat, b: Seq<char>, n: nat)
    requires
        generated_id(a, m) == generated_id(b, n),
    ensures
        a == b,
        m == n,
{
    let x = generated_id(a, m);
    let y = generated_id(b, n);
    lemma_decimal_has_no_hyphen(m);
    lemma_decimal_has_no_hyphen(n);
    assert(x.len() == a.len() + 1 + decimal(m).len());
    assert(y.len() == b.len() + 1 + decimal(n).len());
    if a.len() < b.len() {
        let k = b.len() as int;
        assert(y[k] == '-');
        assert(x[k] == decimal(m)[k - a.len() - 1]);
    } else if b.len() < a.len() {
        let k = a.len() as int;
        assert(x[k] == '-');
        assert(y[k] == decimal(n)[k - b.len() - 1]);
    } else {
        assert(a =~= b) by {
            assert forall|i: int| 0 <= i < a.len() implies a[i] == b[i] by {
                assert(x[i] == a[i]);
                assert(y[i] == b[i]);
            }
        }
        assert(decimal(m) =~= decimal(n)) by {
            assert forall|i: int| 0 <= i < decimal(m).len() implies decimal(m)[i] == decimal(n)[i] by {
                assert(x[a.len() + 1 + i] == decimal(m)[i]);
                assert(y[b.len() + 1 + i] == decimal(n)[i]);
            }
        }
        lemma_decimal_injective(m, n);
    }
}

/// The text of one digit.
fn digit_str(d: usize) -> (s: &'static str)
    requires
        d < 10,
    ensures
        s@ == seq![digit(d as nat)],
{
    proof {
        reveal_strlit("0");
        reveal_strlit("1");
        reveal_strlit("2");
        reveal_strlit("3");
        reveal_strlit("4");
        reveal_strlit("5");
        reveal_strlit("6");
        reveal_strlit("7");
        reveal_strlit("8");
        reveal_strlit("9");
    }
    let s = if d == 0 {
        "0"
    } else if d == 1 {
        "1"
    } else if d == 2 {
        "2"
    } else if d == 3 {
        "3"
    } else if d == 4 {
        "4"
    } else if d == 5 {
        "5"
    } else if d == 6 {
        "6"
    } else if d == 7 {
        "7"
    } else if d == 8 {
        "8"
    } else {
        "9"
    };
    assert(s@ =~= seq![digit(d as nat)]);
    s
}

/// Appends `n` in decimal to `out`.
fn push_decimal(out: &mut String, n: usize)
    ensures
        final(out)@ == old(out)@ + decimal(n as nat),
    decreases n,
{
    if n >= 10 {
        push_decimal(out, n / 10);
    }
    out.append(digit_str(n % 10));
    assert(out@ =~= old(out)@ + decimal(n as nat));
}

/// Writes the identifier that the node named `identity` issues at `counter`.
pub fn format_id(identity: &String, counter: usize) -> (id: String)
    ensures
        id@ == generated_id(identity@, counter as nat),
{
    let mut id = identity.clone();
    proof {
        reveal_strlit("-");
    }
    id.append("-");
    assert(id@ =~= identity@ + seq!['-']);
    push_decimal(&mut id, counter);
    id
}

} // verus!
