//! Small helpers shared by the benchmark bodies.
use vstd::prelude::*;

verus! {

/// Standard number of operations for identity-like benchmarks.
pub const NUM_OPS: usize = 20;

/// Standard number of integers to process.
pub const NUM_INTS: usize = 1_000_000;

/// Standard number of join elements.
pub const NUM_JOIN_ELEMENTS: usize = 100_000;

/// The character of a decimal digit.
pub open spec fn digit_char(d: nat) -> char {
    seq!['0', '1', '2', '3', '4', '5', '6', '7', '8', '9'][d as int]
}

/// The decimal rendering of a natural number, without leading zeros.
pub open spec fn decimal(n: nat) -> Seq<char>
    decreases n,
{
    if n < 10 {
        seq![digit_char(n)]
    } else {
        decimal(n / 10).push(digit_char(n % 10))
    }
}

/// The label of the `i`-th left-hand join element.
pub open spec fn left_label(i: nat) -> Seq<char> {
    seq!['l', 'e', 'f', 't', '_'] + decimal(i)
}

/// Relies on `std::hint::black_box`, documented as an identity function that
/// keeps the optimiser from seeing through the value.
#[verifier::external_body]
pub fn consume<T>(value: T) -> (r: T)
    ensures
        r == value,
{
    std::hint::black_box(value)
}

/// The integers `0, 1, ..., count - 1`.
pub fn generate_ints(count: usize) -> (r: Vec<usize>)
    ensures
        r@.len() == count,
        forall|i: int| 0 <= i < count ==> r@[i] == i,
{
    let mut v: Vec<usize> = Vec::new();
    let mut i: usize = 0;
    while i < count
        invariant
            i <= count,
            v@.len() == i,
            forall|j: int| 0 <= j < i ==> v@[j] == j,
        decreases count - i,
    {
        v.push(i);
        i = i + 1;
    }
    v
}

fn digit_str(d: usize) -> (r: &'static str)
    requires
        d < 10,
    ensures
        r@ == seq![digit_char(d as nat)],
{
    proof {
        reveal_strlit("0");
        reveal_strlit("1");
        reveal_strlit("2");
        reveal_strlit("3");
        reveal_strlit("4");
        reveal_strlit("5");
        reveal_strlit("6");
        reveal_strlit("7");
        reveal_strlit("8");
        reveal_strlit("9");
    }
    let r = match d {
        0 => "0",
        1 => "1",
        2 => "2",
        3 => "3",
        4 => "4",
        5 => "5",
        6 => "6",
        7 => "7",
        8 => "8",
        _ => "9",
    };
    assert(r@ =~= seq![digit_char(d as nat)]);
    r
}

/// Appends the decimal rendering of `n` to `s`.
pub fn push_decimal(s: &mut String, n: usize)
    ensures
        final(s)@ == old(s)@ + decimal(n as nat),
    decreases n,
{
    if n < 10 {
        s.append(digit_str(n));
    } else {
        push_decimal(s, n / 10);
        s.append(digit_str(n % 10));
        assert(final(s)@ =~= old(s)@ + decimal(n as nat));
    }
}

/// Join inputs: `count` left elements `(i mod (count / 10), "left_i")` and
/// `count` right elements `(i mod (count / 10), 2 i)`; a count of zero
/// gives two empty inputs.
pub fn generate_join_pairs(count: usize) -> (r: (Vec<(usize, String)>, Vec<(usize, usize)>))
    requires
        count == 0 || count >= 10,
        count <= usize::MAX / 2,
    ensures
        r.0@.len() == count,
        r.1@.len() == count,
        forall|i: int|
            0 <= i < count ==> r.0@[i].0 == i % (count / 10) as int && r.0@[i].1@ == left_label(
                i as nat,
            ),
        forall|i: int| 0 <= i < count ==> r.1@[i].0 == i % (count / 10) as int && r.1@[i].1 == 2 * i,
{
    if count == 0 {
        return (Vec::new(), Vec::new());
    }
    let keys = count / 10;
    let mut lhs: Vec<(usize, String)> = Vec::new();
    let mut rhs: Vec<(usize, usize)> = Vec::new();
    let mut i: usize = 0;
    while i < count
        invariant
            i <= count,
            keys == count / 10,
            keys > 0,
            count <= usize::MAX / 2,
            lhs@.len() == i,
            rhs@.len() == i,
            forall|j: int|
                0 <= j < i ==> lhs@[j].0 == j % keys as int && lhs@[j].1@ == left_label(j as nat),
            forall|j: int| 0 <= j < i ==> rhs@[j].0 == j % keys as int && rhs@[j].1 == 2 * j,
        decreases count - i,
    {
        let mut label = String::from_str("left_");
        proof {
            reveal_strlit("left_");
        }
        push_decimal(&mut label, i);
        assert(label@ =~= left_label(i as nat));
        lhs.push((i % keys, label));
        rhs.push((i % keys, i * 2));
        i = i + 1;
    }
    (lhs, rhs)
}

} // verus!
