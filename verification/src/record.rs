//! The text that is written out once per revolution: one line that holds a
//! timestamp and then, degree by degree, distance and quality.

use crate::clock::utc_timestamp;
use vstd::prelude::*;
use vstd::string::*;

verus! {

/// The character that stands for the decimal digit `d`.
pub open spec fn digit_char(d: int) -> char {
    if d == 0 {
        '0'
    } else if d == 1 {
        '1'
    } else if d == 2 {
        '2'
    } else if d == 3 {
        '3'
    } else if d == 4 {
        '4'
    } else if d == 5 {
        '5'
    } else if d == 6 {
        '6'
    } else if d == 7 {
        '7'
    } else if d == 8 {
        '8'
    } else {
        '9'
    }
}

/// The decimal digits of `n`, most significant first, without leading zeros.
pub open spec fn decimal_digits(n: nat) -> Seq<char>
    decreases n,
{
    if n < 10 {
        seq![digit_char(n as int)]
    } else {
        decimal_digits(n / 10).push(digit_char((n % 10) as int))
    }
}

/// `n` in decimal, with a minus sign in front if it is negative.
pub open spec fn decimal(n: int) -> Seq<char> {
    if n < 0 {
        seq!['-'] + decimal_digits((-n) as nat)
    } else {
        decimal_digits(n as nat)
    }
}

/// The first `n` pairs of a record: for each degree the distance, a comma,
/// the quality and a comma.
pub open spec fn pairs_text(distances: Seq<i32>, qualities: Seq<i32>, n: nat) -> Seq<char>
    decreases n,
{
    if n == 0 {
        Seq::empty()
    } else {
        pairs_text(distances, qualities, (n - 1) as nat) + decimal(distances[n - 1] as int)
            + seq![','] + decimal(qualities[n - 1] as int) + seq![',']
    }
}

/// Number of pairs that two buffers give: as many as the shorter one holds.
pub open spec fn pair_count(distances: Seq<i32>, qualities: Seq<i32>) -> nat {
    if distances.len() <= qualities.len() {
        distances.len()
    } else {
        qualities.len()
    }
}

/// A whole record: the timestamp, a comma, the pairs in the order of the
/// buffers, and the end of the line.
pub open spec fn record_text(
    timestamp: Seq<char>,
    distances: Seq<i32>,
    qualities: Seq<i32>,
) -> Seq<char> {
    timestamp + seq![','] + pairs_text(distances, qualities, pair_count(distances, qualities))
        + seq!['\n']
}

/// The name of the file that takes the records of a run begun at the time
/// that `timestamp` tells.
pub open spec fn file_name_text(timestamp: Seq<char>) -> Seq<char> {
    "xv_meas_"@ + timestamp + ".csv"@
}

/// The text of one decimal digit.
fn digit_str(d: u32) -> (s: &'static str)
    requires
        d < 10,
    ensures
        s@ == seq![digit_char(d as int)],
{
    proof {
        reveal_strlit("0");
        reveal_strlit("1");
        reveal_strlit("2");
        reveal_strlit("3");
        reveal_strlit("4");
        reveal_strlit("5");
        reveal_strlit("6");
        reveal_strlit("7");
        reveal_strlit("8");
        reveal_strlit("9");
    }
    let s = if d == 0 {
        "0"
    } else if d == 1 {
        "1"
    } else if d == 2 {
        "2"
    } else if d == 3 {
        "3"
    } else if d == 4 {
        "4"
    } else if d == 5 {
        "5"
    } else if d == 6 {
        "6"
    } else if d == 7 {
        "7"
    } else if d == 8 {
        "8"
    } else {
        "9"
    };
    assert(s@ =~= seq![digit_char(d as int)]);
    s
}

/// Appends the decimal digits of `n` to `out`.
fn push_digits(out: &mut String, n: u32)
    ensures
        final(out)@ == old(out)@ + decimal_digits(n as nat),
    decreases n,
{
    if n >= 10 {
        push_digits(out, n / 10);
    }
    out.append(digit_str(n % 10));
    assert(out@ =~= old(out)@ + decimal_digits(n as nat));
}

/// Appends `n` in decimal to `out`.
pub fn push_decimal(out: &mut String, n: i32)
    ensures
        final(out)@ == old(out)@ + decimal(n as int),
{
    if n < 0 {
        proof {
            reveal_strlit("-");
        }
        out.append("-");
        let magnitude: u32 = (0 - (n as i64)) as u32;
        push_digits(out, magnitude);
        assert(out@ =~= old(out)@ + decimal(n as int));
    } else {
        push_digits(out, n as u32);
    }
}

/// Renders one record from a timestamp and the two measurement buffers. If
/// one buffer is shorter than the other, the record ends with the shorter.
pub fn format_record(timestamp: &str, distances: &[i32], qualities: &[i32]) -> (r: String)
    ensures
        r@ == record_text(timestamp@, distances@, qualities@),
{
    let count: usize = if distances.len() <= qualities.len() {
        distances.len()
    } else {
        qualities.len()
    };
    proof {
        reveal_strlit(",");
        reveal_strlit("\n");
    }
    let mut out = String::new();
    out.append(timestamp);
    out.append(",");
    let ghost head = timestamp@ + seq![','];
    assert(out@ =~= head + pairs_text(distances@, qualities@, 0));
    let mut i: usize = 0;
    while i < count
        invariant
            i <= count,
            count == pair_count(distances@, qualities@),
            head == timestamp@ + seq![','],
            out@ == head + pairs_text(distances@, qualities@, i as nat),
            ","@ == seq![','],
        decreases count - i,
    {
        push_decimal(&mut out, distances[i]);
        out.append(",");
        push_decimal(&mut out, qualities[i]);
        out.append(",");
        i = i + 1;
        assert(out@ =~= head + pairs_text(distances@, qualities@, i as nat));
    }
    out.append("\n");
    assert(out@ =~= record_text(timestamp@, distances@, qualities@));
    out
}

/// Names the file that takes the records of a run begun at the time that
/// `timestamp` tells.
pub fn data_file_name(timestamp: &str) -> (r: String)
    ensures
        r@ == file_name_text(timestamp@),
{
    let mut out = String::new();
    out.append("xv_meas_");
    out.append(timestamp);
    out.append(".csv");
    assert(out@ =~= file_name_text(timestamp@));
    out
}

/// Renders one record of the two measurement buffers, stamped with the
/// current time in UTC. The system clock must not read a time before 1970.
pub fn format_record_now(distances: &[i32], qualities: &[i32]) -> (r: String)
    ensures
        exists|timestamp: Seq<char>|
            r@ == #[trigger] record_text(timestamp, distances@, qualities@),
{
    let timestamp = utc_timestamp();
    let r = format_record(timestamp.as_str(), distances, qualities);
    assert(r@ == record_text(timestamp@, distances@, qualities@));
    r
}

/// Names the file that takes the records of a run that begins now. The
/// system clock must not read a time before 1970.
pub fn data_file_name_now() -> (r: String)
    ensures
        exists|timestamp: Seq<char>| r@ == #[trigger] file_name_text(timestamp),
{
    let timestamp = utc_timestamp();
    let r = data_file_name(timestamp.as_str());
    assert(r@ == file_name_text(timestamp@));
    r
}

} // verus!
