use vstd::prelude::*;

use vstd::string::StringExecFns;

verus! {

/// The decimal digit character for `d < 10`.
pub open spec fn digit_char(d: nat) -> char {
    if d == 0 {
        '0'
    } else if d == 1 {
        '1'
    } else if d == 2 {
        '2'
    } else if d == 3 {
        '3'
    } else if d == 4 {
        '4'
    } else if d == 5 {
        '5'
    } else if d == 6 {
        '6'
    } else if d == 7 {
        '7'
    } else if d == 8 {
        '8'
    } else {
        '9'
    }
}

/// `n` written in decimal, without leading zeros.
pub open spec fn decimal(n: nat) -> Seq<char>
    decreases n,
{
    if n < 10 {
        seq![digit_char(n)]
    } else {
        decimal(n / 10) + seq![digit_char(n % 10)]
    }
}

/// The file name of tile `(x, y)` of level `z`: `{z}-{x}-{y}.{ext}`.
pub open spec fn tile_name(z: nat, x: nat, y: nat, ext: Seq<char>) -> Seq<char> {
    decimal(z) + seq!['-'] + decimal(x) + seq!['-'] + decimal(y) + seq!['.'] + ext
}

fn digit_str(d: u32) -> (r: &'static str)
    requires
        d < 10,
    ensures
        r@ == seq![digit_char(d as nat)],
{
    if d == 0 {
        proof { reveal_strlit("0"); }
        "0"
    } else if d == 1 {
        proof { reveal_strlit("1"); }
        "1"
    } else if d == 2 {
        proof { reveal_strlit("2"); }
        "2"
    } else if d == 3 {
        proof { reveal_strlit("3"); }
        "3"
    } else if d == 4 {
        proof { reveal_strlit("4"); }
        "4"
    } else if d == 5 {
        proof { reveal_strlit("5"); }
        "5"
    } else if d == 6 {
        proof { reveal_strlit("6"); }
        "6"
    } else if d == 7 {
        proof { reveal_strlit("7"); }
        "7"
    } else if d == 8 {
        proof { reveal_strlit("8"); }
        "8"
    } else {
        proof { reveal_strlit("9"); }
        "9"
    }
}

/// Appends `n` in decimal to `s`.
fn push_decimal(s: &mut String, n: u32)
    ensures
        final(s)@ == old(s)@ + decimal(n as nat),
    decreases n,
{
    if n >= 10 {
        push_decimal(s, n / 10);
    }
    s.append(digit_str(n % 10));
    proof {
        assert(final(s)@ =~= old(s)@ + decimal(n as nat));
    }
}

/// The name of the file that holds tile `(x, y)` of level `z`:
/// `{z}-{x}-{y}.{ext}`, each number in decimal.
pub fn tile_file_name(z: u8, x: u32, y: u32, ext: &str) -> (r: String)
    ensures
        r@ == tile_name(z as nat, x as nat, y as nat, ext@),
{
    let mut name = String::new();
    push_decimal(&mut name, z as u32);
    proof { reveal_strlit("-"); reveal_strlit("."); }
    name.append("-");
    push_decimal(&mut name, x);
    name.append("-");
    push_decimal(&mut name, y);
    name.append(".");
    name.append(ext);
    proof {
        assert(name@ =~= tile_name(z as nat, x as nat, y as nat, ext@));
    }
    name
}

} // verus!
