//! Cut lists and generator statistics as the host owns them. Time is held
//! in whole milliseconds; the shell converts the boundary's seconds into
//! this form right at the call. The foreign-owned cut buffer is valid only
//! for the call that produced it, so the host copies it out eagerly; the
//! timestamps-only output file is rendered from the host-owned copy.

use vstd::prelude::*;

verus! {

/// A time range to remove, in milliseconds.
#[derive(Clone, Copy, PartialEq, Eq, Structural, Debug)]
pub struct Cut {
    pub start_ms: u64,
    pub end_ms: u64,
}

/// The generator's cut list as handed over the boundary. The vector stands
/// for the length-and-pointer pair; its buffer is only call-scoped.
pub struct CutList {
    pub cuts: Vec<Cut>,
}

/// Before/after durations of a generation pass, in milliseconds.
#[derive(Clone, Copy, PartialEq, Eq, Structural, Debug)]
pub struct GeneratorStats {
    pub len_pre_cut_ms: u64,
    pub len_post_cut_ms: u64,
}

/// What a `generate` call returns across the boundary.
pub struct GeneratorResult {
    pub cuts: CutList,
    pub stats: GeneratorStats,
}

/// The eager copy-out: a host-owned cut sequence equal to the foreign one,
/// element for element, so the foreign buffer may be invalidated freely
/// after the call returns.
pub fn copy_cut_list(list: &CutList) -> (owned: Vec<Cut>)
    ensures
        owned@ == list.cuts@,
{
    let mut owned: Vec<Cut> = Vec::new();
    let n = list.cuts.len();
    let mut i: usize = 0;
    while i < n
        invariant
            n == list.cuts@.len(),
            0 <= i <= n,
            owned@ == list.cuts@.take(i as int),
        decreases n - i,
    {
        owned.push(list.cuts[i]);
        proof {
            assert(owned@ =~= list.cuts@.take(i + 1));
        }
        i += 1;
    }
    proof {
        assert(owned@ =~= list.cuts@);
    }
    owned
}

/// The character of one decimal digit.
pub open spec fn digit_char(d: int) -> char {
    if d == 0 {
        '0'
    } else if d == 1 {
        '1'
    } else if d == 2 {
        '2'
    } else if d == 3 {
        '3'
    } else if d == 4 {
        '4'
    } else if d == 5 {
        '5'
    } else if d == 6 {
        '6'
    } else if d == 7 {
        '7'
    } else if d == 8 {
        '8'
    } else {
        '9'
    }
}

/// Decimal notation of a number, most significant digit first, no leading
/// zeros (a lone zero for zero).
pub open spec fn dec_digits(n: nat) -> Seq<char>
    decreases n,
{
    if n < 10 {
        seq![digit_char(n as int)]
    } else {
        dec_digits(n / 10).push(digit_char((n % 10) as int))
    }
}

/// A millisecond count shown as seconds: the whole seconds in decimal, then
/// a fractional part only when it is non-zero, with trailing zeros trimmed —
/// `2000` shows as `2`, `2500` as `2.5`, `50` as `0.05`.
pub open spec fn seconds_chars(ms: nat) -> Seq<char> {
    let whole = dec_digits(ms / 1000);
    let f = ms % 1000;
    if f == 0 {
        whole
    } else if f % 10 != 0 {
        whole + seq!['.', digit_char(f as int / 100), digit_char((f as int / 10) % 10), digit_char(f as int % 10)]
    } else if f % 100 != 0 {
        whole + seq!['.', digit_char(f as int / 100), digit_char((f as int / 10) % 10)]
    } else {
        whole + seq!['.', digit_char(f as int / 100)]
    }
}

/// One line of the timestamps-only output: start and end in seconds,
/// comma-separated.
pub open spec fn cut_line(c: Cut) -> Seq<char> {
    seconds_chars(c.start_ms as nat) + seq![','] + seconds_chars(c.end_ms as nat) + seq!['\n']
}

/// The whole timestamps-only file: one line per cut, in order.
pub open spec fn cut_lines(cuts: Seq<Cut>) -> Seq<char>
    decreases cuts.len(),
{
    if cuts.len() == 0 {
        Seq::empty()
    } else {
        cut_lines(cuts.drop_last()) + cut_line(cuts.last())
    }
}

/// One decimal digit as text.
fn digit_str(d: u64) -> (r: &'static str)
    requires
        d <= 9,
    ensures
        r@ == seq![digit_char(d as int)],
{
    if d == 0 {
        proof {
            reveal_strlit("0");
            assert("0"@ =~= seq![digit_char(0)]);
        }
        "0"
    } else if d == 1 {
        proof {
            reveal_strlit("1");
            assert("1"@ =~= seq![digit_char(1)]);
        }
        "1"
    } else if d == 2 {
        proof {
            reveal_strlit("2");
            assert("2"@ =~= seq![digit_char(2)]);
        }
        "2"
    } else if d == 3 {
        proof {
            reveal_strlit("3");
            assert("3"@ =~= seq![digit_char(3)]);
        }
        "3"
    } else if d == 4 {
        proof {
            reveal_strlit("4");
            assert("4"@ =~= seq![digit_char(4)]);
        }
        "4"
    } else if d == 5 {
        proof {
            reveal_strlit("5");
            assert("5"@ =~= seq![digit_char(5)]);
        }
        "5"
    } else if d == 6 {
        proof {
            reveal_strlit("6");
            assert("6"@ =~= seq![digit_char(6)]);
        }
        "6"
    } else if d == 7 {
        proof {
            reveal_strlit("7");
            assert("7"@ =~= seq![digit_char(7)]);
        }
        "7"
    } else if d == 8 {
        proof {
            reveal_strlit("8");
            assert("8"@ =~= seq![digit_char(8)]);
        }
        "8"
    } else {
        proof {
            reveal_strlit("9");
            assert("9"@ =~= seq![digit_char(9)]);
        }
        "9"
    }
}

/// A number in decimal notation.
pub fn u64_to_decimal(n: u64) -> (r: String)
    ensures
        r@ == dec_digits(n as nat),
    decreases n,
{
    if n < 10 {
        String::from_str(digit_str(n))
    } else {
        let mut prefix = u64_to_decimal(n / 10);
        prefix.append(digit_str(n % 10));
        prefix
    }
}

/// A millisecond count rendered as seconds, as the timestamps file shows it.
pub fn format_seconds(ms: u64) -> (r: String)
    ensures
        r@ == seconds_chars(ms as nat),
{
    let mut out = u64_to_decimal(ms / 1000);
    let f = ms % 1000;
    if f == 0 {
        return out;
    }
    out.append(".");
    proof {
        reveal_strlit(".");
        assert("."@ =~= seq!['.']);
    }
    if f % 10 != 0 {
        out.append(digit_str(f / 100));
        out.append(digit_str((f / 10) % 10));
        out.append(digit_str(f % 10));
        proof {
            assert(out@ =~= seconds_chars(ms as nat));
        }
    } else if f % 100 != 0 {
        out.append(digit_str(f / 100));
        out.append(digit_str((f / 10) % 10));
        proof {
            assert(out@ =~= seconds_chars(ms as nat));
        }
    } else {
        out.append(digit_str(f / 100));
        proof {
            assert(out@ =~= seconds_chars(ms as nat));
        }
    }
    out
}

/// The timestamps-only file for a host-owned cut sequence: exactly one
/// `start,end` line per cut.
pub fn format_cut_lines(cuts: &Vec<Cut>) -> (r: String)
    ensures
        r@ == cut_lines(cuts@),
{
    let mut out = String::new();
    let n = cuts.len();
    let mut i: usize = 0;
    proof {
        assert(out@ =~= cut_lines(cuts@.take(0)));
    }
    while i < n
        invariant
            n == cuts@.len(),
            0 <= i <= n,
            out@ == cut_lines(cuts@.take(i as int)),
        decreases n - i,
    {
        let line = format_cut_line(&cuts[i]);
        out.append(line.as_str());
        proof {
            assert(cuts@.take(i + 1).drop_last() =~= cuts@.take(i as int));
            assert(cuts@.take(i + 1).last() == cuts@[i as int]);
            assert(out@ =~= cut_lines(cuts@.take(i + 1)));
        }
        i += 1;
    }
    proof {
        assert(cuts@.take(n as int) =~= cuts@);
    }
    out
}

/// One `start,end` line.
pub fn format_cut_line(c: &Cut) -> (r: String)
    ensures
        r@ == cut_line(*c),
{
    let mut out = format_seconds(c.start_ms);
    out.append(",");
    let end = format_seconds(c.end_ms);
    out.append(end.as_str());
    out.append("\n");
    proof {
        reveal_strlit(",");
        reveal_strlit("\n");
        assert(","@ =~= seq![',']);
        assert("\n"@ =~= seq!['\n']);
        assert(out@ =~= cut_line(*c));
    }
    out
}

} // verus!
