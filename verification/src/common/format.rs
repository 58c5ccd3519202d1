//! Text forms of numbers: decimal integers and hyphenated UUIDs.
use vstd::prelude::*;

verus! {

/// The lower-case hexadecimal digit for `d` (0..16).
pub open spec fn hex_char(d: int) -> char {
    if d < 10 {
        (48 + d) as char
    } else {
        (87 + d) as char
    }
}

/// The `n` lowest hexadecimal digits of `v`, most significant first.
pub open spec fn hex_digits(v: nat, n: nat) -> Seq<char>
    decreases n,
{
    if n == 0 {
        Seq::empty()
    } else {
        hex_digits(v / 16, (n - 1) as nat).push(hex_char((v % 16) as int))
    }
}

/// The decimal digits of `v`, most significant first, without leading zeros.
pub open spec fn dec_digits(v: nat) -> Seq<char>
    decreases v,
{
    if v < 10 {
        seq![hex_char(v as int)]
    } else {
        dec_digits(v / 10).push(hex_char((v % 10) as int))
    }
}

/// The hyphenated text of a UUID (as `Uuid`'s `Display`): its 32 lower-case
/// hexadecimal digits in groups of 8, 4, 4, 4 and 12.
pub open spec fn uuid_text(v: u128) -> Seq<char> {
    hex_digits(v as nat / 0x1_0000_0000_0000_0000_0000_0000, 8) + seq!['-'] + hex_digits(
        v as nat / 0x1_0000_0000_0000_0000_0000,
        4,
    ) + seq!['-'] + hex_digits(v as nat / 0x1_0000_0000_0000_0000, 4) + seq!['-'] + hex_digits(
        v as nat / 0x1_0000_0000_0000,
        4,
    ) + seq!['-'] + hex_digits(v as nat, 12)
}

/// There are `n` digits in `hex_digits(v, n)`.
pub proof fn lemma_hex_digits_len(v: nat, n: nat)
    ensures
        hex_digits(v, n).len() == n,
    decreases n,
{
    if n > 0 {
        lemma_hex_digits_len(v / 16, (n - 1) as nat);
    }
}

/// The text of a UUID has 36 characters, with hyphens at positions 8, 13,
/// 18 and 23.
pub proof fn lemma_uuid_text_shape(v: u128)
    ensures
        uuid_text(v).len() == 36,
        uuid_text(v)[8] == '-',
        uuid_text(v)[13] == '-',
        uuid_text(v)[18] == '-',
        uuid_text(v)[23] == '-',
{
    lemma_hex_digits_len(v as nat / 0x1_0000_0000_0000_0000_0000_0000, 8);
    lemma_hex_digits_len(v as nat / 0x1_0000_0000_0000_0000_0000, 4);
    lemma_hex_digits_len(v as nat / 0x1_0000_0000_0000_0000, 4);
    lemma_hex_digits_len(v as nat / 0x1_0000_0000_0000, 4);
    lemma_hex_digits_len(v as nat, 12);
}

/// The one-character text of the digit `d`.
fn digit_str(d: u8) -> (r: &'static str)
    requires
        d < 16,
    ensures
        r@ == seq![hex_char(d as int)],
{
    match d {
        0 => { proof { reveal_strlit("0"); } "0" },
        1 => { proof { reveal_strlit("1"); } "1" },
        2 => { proof { reveal_strlit("2"); } "2" },
        3 => { proof { reveal_strlit("3"); } "3" },
        4 => { proof { reveal_strlit("4"); } "4" },
        5 => { proof { reveal_strlit("5"); } "5" },
        6 => { proof { reveal_strlit("6"); } "6" },
        7 => { proof { reveal_strlit("7"); } "7" },
        8 => { proof { reveal_strlit("8"); } "8" },
        9 => { proof { reveal_strlit("9"); } "9" },
        10 => { proof { reveal_strlit("a"); } "a" },
        11 => { proof { reveal_strlit("b"); } "b" },
        12 => { proof { reveal_strlit("c"); } "c" },
        13 => { proof { reveal_strlit("d"); } "d" },
        14 => { proof { reveal_strlit("e"); } "e" },
        _ => { proof { reveal_strlit("f"); } "f" },
    }
}

/// Appends the `n` lowest hexadecimal digits of `v` to `out`.
fn push_hex_digits(out: &mut String, v: u128, n: usize)
    ensures
        final(out)@ == old(out)@ + hex_digits(v as nat, n as nat),
    decreases n,
{
    if n > 0 {
        push_hex_digits(out, v / 16, n - 1);
        out.append(digit_str((v % 16) as u8));
    } else {
        assert(old(out)@ + hex_digits(v as nat, 0) =~= old(out)@);
    }
}

/// The decimal text of `v` (as `u64`'s `Display`).
pub fn decimal_text(v: u64) -> (r: String)
    ensures
        r@ == dec_digits(v as nat),
    decreases v,
{
    if v < 10 {
        let r = digit_str(v as u8).to_owned();
        r
    } else {
        let mut r = decimal_text(v / 10);
        r.append(digit_str((v % 10) as u8));
        r
    }
}

/// The hyphenated text of the UUID `v` (as `Uuid`'s `Display`).
pub fn uuid_string(v: u128) -> (r: String)
    ensures
        r@ == uuid_text(v),
{
    proof {
        reveal_strlit("-");
    }
    let mut out = String::new();
    push_hex_digits(&mut out, v / 0x1_0000_0000_0000_0000_0000_0000, 8);
    out.append("-");
    push_hex_digits(&mut out, v / 0x1_0000_0000_0000_0000_0000, 4);
    out.append("-");
    push_hex_digits(&mut out, v / 0x1_0000_0000_0000_0000, 4);
    out.append("-");
    push_hex_digits(&mut out, v / 0x1_0000_0000_0000, 4);
    out.append("-");
    push_hex_digits(&mut out, v, 12);
    assert(out@ =~= uuid_text(v));
    out
}

} // verus!
