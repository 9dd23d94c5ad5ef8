use vstd::prelude::*;
use vstd::std_specs::iter::IteratorSpec;

verus! {

/// The character of a decimal digit.
pub open spec fn digit_spec(d: nat) -> char {
    if d == 0 {
        '0'
    } else if d == 1 {
        '1'
    } else if d == 2 {
        '2'
    } else if d == 3 {
        '3'
    } else if d == 4 {
        '4'
    } else if d == 5 {
        '5'
    } else if d == 6 {
        '6'
    } else if d == 7 {
        '7'
    } else if d == 8 {
        '8'
    } else {
        '9'
    }
}

/// `n` written in decimal, without leading zeros.
pub open spec fn decimal(n: nat) -> Seq<char>
    decreases n,
{
    if n < 10 {
        seq![digit_spec(n)]
    } else {
        decimal(n / 10).push(digit_spec(n % 10))
    }
}

/// A count of hundredths written with two decimal places (`1234` is `12.34`).
pub open spec fn unsigned_centi_text(m: nat) -> Seq<char> {
    decimal(m / 100) + seq!['.', digit_spec((m % 100) / 10), digit_spec(m % 10)]
}

/// A signed count of hundredths written with two decimal places (`-5` is `-0.05`).
pub open spec fn centi_text(v: int) -> Seq<char> {
    if v < 0 {
        seq!['-'] + unsigned_centi_text((-v) as nat)
    } else {
        unsigned_centi_text(v as nat)
    }
}

/// `s` with each occurrence of `c` replaced by `r`.
pub open spec fn replace_char(s: Seq<char>, c: char, r: Seq<char>) -> Seq<char>
    decreases s.len(),
{
    if s.len() == 0 {
        s
    } else {
        replace_char(s.drop_last(), c, r) + if s.last() == c {
            r
        } else {
            seq![s.last()]
        }
    }
}

/// Relies on `String::from_iter`: the string holds exactly the given characters.
#[verifier::external_body]
pub(crate) fn string_from_chars(cs: &Vec<char>) -> (r: String)
    ensures
        r@ == cs@,
{
    cs.iter().collect()
}

/// The characters of `s`, in order.
pub(crate) fn chars_of(s: &str) -> (r: Vec<char>)
    ensures
        r@ == s@,
{
    broadcast use vstd::string::group_string_axioms;

    let mut it = s.chars();
    let mut out: Vec<char> = Vec::new();
    loop
        invariant
            out@ + it.remaining() == s@,
            it.decrease() is Some,
        decreases it.decrease()->0,
    {
        let ghost before = it.remaining();
        match it.next() {
            Some(c) => {
                assert(out@.push(c) + it.remaining() =~= out@ + before);
                out.push(c);
            },
            None => {
                assert(out@ =~= s@);
                return out;
            },
        }
    }
}

fn digit_char(d: u64) -> (c: char)
    requires
        d < 10,
    ensures
        c == digit_spec(d as nat),
{
    if d == 0 {
        '0'
    } else if d == 1 {
        '1'
    } else if d == 2 {
        '2'
    } else if d == 3 {
        '3'
    } else if d == 4 {
        '4'
    } else if d == 5 {
        '5'
    } else if d == 6 {
        '6'
    } else if d == 7 {
        '7'
    } else if d == 8 {
        '8'
    } else {
        '9'
    }
}

/// Appends `n` in decimal.
pub fn push_decimal(out: &mut Vec<char>, n: u64)
    ensures
        final(out)@ == old(out)@ + decimal(n as nat),
    decreases n,
{
    if n >= 10 {
        push_decimal(out, n / 10);
    }
    out.push(digit_char(n % 10));
    proof {
        if n < 10 {
            assert(old(out)@.push(digit_spec(n as nat)) =~= old(out)@ + decimal(n as nat));
        } else {
            assert((old(out)@ + decimal(n as nat / 10)).push(digit_spec(n as nat % 10))
                =~= old(out)@ + decimal(n as nat));
        }
    }
}

/// Appends a count of hundredths with two decimal places.
pub fn push_unsigned_centi(out: &mut Vec<char>, m: u64)
    ensures
        final(out)@ == old(out)@ + unsigned_centi_text(m as nat),
{
    push_decimal(out, m / 100);
    out.push('.');
    out.push(digit_char((m % 100) / 10));
    out.push(digit_char(m % 10));
    assert(final(out)@ =~= old(out)@ + unsigned_centi_text(m as nat));
}

/// Appends a signed count of hundredths with two decimal places.
pub fn push_centi(out: &mut Vec<char>, v: i64)
    ensures
        final(out)@ == old(out)@ + centi_text(v as int),
{
    if v < 0 {
        out.push('-');
        let m: u64 = ((-(v + 1)) as u64) + 1;
        push_unsigned_centi(out, m);
        assert(final(out)@ =~= old(out)@ + centi_text(v as int));
    } else {
        push_unsigned_centi(out, v as u64);
    }
}

/// A sample in hundredths written with two decimal places.
pub fn format_centi(v: i64) -> (r: String)
    ensures
        r@ == centi_text(v as int),
{
    let mut out: Vec<char> = Vec::new();
    push_centi(&mut out, v);
    assert(out@ =~= centi_text(v as int));
    string_from_chars(&out)
}

/// The overlay text of a chart: `template` with each `#` replaced by the most
/// recent sample written with two decimal places (zero when there is none).
pub fn overlay_text(template: &str, latest: Option<i64>) -> (r: String)
    ensures
        r@ == replace_char(
            template@,
            '#',
            centi_text(
                match latest {
                    Some(v) => v as int,
                    None => 0,
                },
            ),
        ),
{
    let v: i64 = match latest {
        Some(v) => v,
        None => 0,
    };
    let mut value: Vec<char> = Vec::new();
    push_centi(&mut value, v);
    assert(value@ =~= centi_text(v as int));
    let t = chars_of(template);
    let mut out: Vec<char> = Vec::new();
    let mut i: usize = 0;
    while i < t.len()
        invariant
            i <= t@.len(),
            t@ == template@,
            value@ == centi_text(v as int),
            out@ == replace_char(t@.subrange(0, i as int), '#', value@),
        decreases t@.len() - i,
    {
        assert(t@.subrange(0, i + 1).drop_last() =~= t@.subrange(0, i as int));
        if t[i] == '#' {
            let mut j: usize = 0;
            let ghost before = out@;
            while j < value.len()
                invariant
                    j <= value@.len(),
                    out@ == before + value@.subrange(0, j as int),
                decreases value@.len() - j,
            {
                out.push(value[j]);
                assert(out@ =~= before + value@.subrange(0, j + 1));
                j = j + 1;
            }
            assert(value@.subrange(0, value@.len() as int) =~= value@);
        } else {
            out.push(t[i]);
            assert(out@ =~= replace_char(t@.subrange(0, i + 1), '#', value@));
        }
        i = i + 1;
    }
    assert(t@.subrange(0, t@.len() as int) =~= t@);
    string_from_chars(&out)
}

} // verus!
