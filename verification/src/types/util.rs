use vstd::prelude::*;

verus! {

/// Character-wise string equality, decided executably.
pub fn str_eq(a: &str, b: &str) -> (r: bool)
    ensures
        r <==> a@ == b@,
{
    let la = a.unicode_len();
    let lb = b.unicode_len();
    if la != lb {
        return false;
    }
    let mut i: usize = 0;
    while i < la
        invariant
            i <= la,
            la == a@.len(),
            la == b@.len(),
            forall|j: int| 0 <= j < i ==> a@[j] == b@[j],
        decreases la - i,
    {
        if a.get_char(i) != b.get_char(i) {
            return false;
        }
        i = i + 1;
    }
    proof {
        assert(a@ =~= b@);
    }
    true
}

/// The decimal digit character for `d`, meaningful for `0 <= d <= 9`.
pub open spec fn digit_char(d: int) -> char {
    if d == 0 { '0' }
    else if d == 1 { '1' }
    else if d == 2 { '2' }
    else if d == 3 { '3' }
    else if d == 4 { '4' }
    else if d == 5 { '5' }
    else if d == 6 { '6' }
    else if d == 7 { '7' }
    else if d == 8 { '8' }
    else { '9' }
}

/// The usual base-10 rendering of a natural number, most significant digit first.
pub open spec fn dec_digits(n: nat) -> Seq<char>
    decreases n,
{
    if n < 10 {
        seq![digit_char(n as int)]
    } else {
        dec_digits(n / 10).push(digit_char((n % 10) as int))
    }
}

fn push_digit(out: &mut String, d: u64)
    requires
        d <= 9,
    ensures
        final(out)@ == old(out)@.push(digit_char(d as int)),
{
    if d == 0 { out.append("0"); proof { reveal_strlit("0"); } }
    else if d == 1 { out.append("1"); proof { reveal_strlit("1"); } }
    else if d == 2 { out.append("2"); proof { reveal_strlit("2"); } }
    else if d == 3 { out.append("3"); proof { reveal_strlit("3"); } }
    else if d == 4 { out.append("4"); proof { reveal_strlit("4"); } }
    else if d == 5 { out.append("5"); proof { reveal_strlit("5"); } }
    else if d == 6 { out.append("6"); proof { reveal_strlit("6"); } }
    else if d == 7 { out.append("7"); proof { reveal_strlit("7"); } }
    else if d == 8 { out.append("8"); proof { reveal_strlit("8"); } }
    else { out.append("9"); proof { reveal_strlit("9"); } }
    proof {
        assert(final(out)@ =~= old(out)@.push(digit_char(d as int)));
    }
}

/// A number rendered as exactly two digits.
pub open spec fn pad2(v: int) -> Seq<char> {
    seq![digit_char(v / 10), digit_char(v % 10)]
}

/// A number rendered as exactly three digits.
pub open spec fn pad3(v: int) -> Seq<char> {
    seq![digit_char(v / 100), digit_char((v / 10) % 10), digit_char(v % 10)]
}

/// Appends the two-digit rendering of `v` to `out`.
pub fn append_pad2(out: &mut String, v: u64)
    requires
        v <= 99,
    ensures
        final(out)@ == old(out)@ + pad2(v as int),
{
    push_digit(out, v / 10);
    push_digit(out, v % 10);
    proof {
        assert(final(out)@ =~= old(out)@ + pad2(v as int));
    }
}

/// Appends the three-digit rendering of `v` to `out`.
pub fn append_pad3(out: &mut String, v: u64)
    requires
        v <= 999,
    ensures
        final(out)@ == old(out)@ + pad3(v as int),
{
    push_digit(out, v / 100);
    push_digit(out, (v / 10) % 10);
    push_digit(out, v % 10);
    proof {
        assert(final(out)@ =~= old(out)@ + pad3(v as int));
    }
}

/// Appends the base-10 rendering of `n` to `out`.
pub fn append_u64(out: &mut String, n: u64)
    ensures
        final(out)@ == old(out)@ + dec_digits(n as nat),
    decreases n,
{
    if n < 10 {
        push_digit(out, n);
        proof {
            assert(final(out)@ =~= old(out)@ + dec_digits(n as nat));
        }
    } else {
        append_u64(out, n / 10);
        push_digit(out, n % 10);
        proof {
            assert(final(out)@ =~= old(out)@ + dec_digits(n as nat));
        }
    }
}

/// The base-10 rendering of `n` as a fresh string.
pub fn format_u64(n: u64) -> (r: String)
    ensures
        r@ == dec_digits(n as nat),
{
    let mut out = String::new();
    append_u64(&mut out, n);
    proof {
        assert(out@ =~= dec_digits(n as nat));
    }
    out
}

} // verus!
