use vstd::prelude::*;

verus! {

pub open spec fn digit_char(d: nat) -> char {
    if d == 0 {
        '0'
    } else if d == 1 {
        '1'
    } else if d == 2 {
        '2'
    } else if d == 3 {
        '3'
    } else if d == 4 {
        '4'
    } else if d == 5 {
        '5'
    } else if d == 6 {
        '6'
    } else if d == 7 {
        '7'
    } else if d == 8 {
        '8'
    } else {
        '9'
    }
}

/// The decimal digits of `n`, without leading zeros.
pub open spec fn decimal(n: nat) -> Seq<char>
    decreases n,
{
    if n < 10 {
        seq![digit_char(n)]
    } else {
        decimal(n / 10).push(digit_char(n % 10))
    }
}

/// The decimal digits of `n`, with zeros in front up to `width` characters.
pub open spec fn zero_padded(n: nat, width: nat) -> Seq<char> {
    let d = decimal(n);
    if d.len() < width {
        Seq::new((width - d.len()) as nat, |i: int| '0') + d
    } else {
        d
    }
}

/// Relies on format!: `{}` writes the title as it is, followed by ".png".
#[verifier::external_body]
fn plain_file_name(title: &str) -> (r: String)
    ensures
        r@ == title@ + ".png"@,
{
    format!("{}.png", title)
}

/// Relies on format!: `{}` writes the title as it is and `{:04}` the frame number
/// in decimal, zero-padded to four digits, followed by ".png".
#[verifier::external_body]
fn numbered_file_name(title: &str, frame: u32) -> (r: String)
    ensures
        r@ == title@ + zero_padded(frame as nat, 4) + ".png"@,
{
    format!("{}{:04}.png", title, frame)
}

/// The file name of frame `frame` of `total`: the title alone for a single frame,
/// else the title and the frame number padded to four digits.
pub fn frame_file_name(title: &str, frame: u32, total: u32) -> (r: String)
    ensures
        total == 1 ==> r@ == title@ + ".png"@,
        total != 1 ==> r@ == title@ + zero_padded(frame as nat, 4) + ".png"@,
{
    if total == 1 {
        plain_file_name(title)
    } else {
        numbered_file_name(title, frame)
    }
}

} // verus!
