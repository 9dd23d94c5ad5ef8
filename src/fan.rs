use vstd::prelude::*;

use crate::graph::ProbeError;
use crate::lines::{contains, contains_spec, lines_spec, occurs_at, occurs_at_exec, split_lines};
use crate::text::{chars_of, string_from_chars};

verus! {

/// One fan as reported by the `sensors` utility.
#[derive(Debug)]
pub struct FanInfo {
    pub rpm: Option<i32>,
    pub min_rpm: Option<i32>,
    pub max_rpm: Option<i32>,
    pub state: Option<String>,
}

pub open spec fn is_space(c: char) -> bool {
    c == ' ' || c == '\t' || c == '\n' || c == '\r' || c == '\x0B' || c == '\x0C'
}

pub open spec fn is_digit(c: char) -> bool {
    '0' <= c && c <= '9'
}

/// First index from `i` on that is not a space.
pub open spec fn skip_spaces(l: Seq<char>, i: nat) -> nat
    decreases l.len() - i,
{
    if i < l.len() && is_space(l[i as int]) {
        skip_spaces(l, i + 1)
    } else {
        i
    }
}

/// First index from `i` on that is not a digit.
pub open spec fn skip_digits(l: Seq<char>, i: nat) -> nat
    decreases l.len() - i,
{
    if i < l.len() && is_digit(l[i as int]) {
        skip_digits(l, i + 1)
    } else {
        i
    }
}

/// The number that the digits `l[i..j]` write in decimal.
pub open spec fn digits_value(l: Seq<char>, i: nat, j: nat) -> nat
    decreases j,
{
    if j <= i {
        0
    } else {
        digits_value(l, i, (j - 1) as nat) * 10 + ((l[j - 1] as u32) - ('0' as u32)) as nat
    }
}

/// Past `lit` at `p`, if it stands there.
pub open spec fn after_lit(l: Seq<char>, p: Option<nat>, lit: Seq<char>) -> Option<nat> {
    match p {
        Some(i) => if occurs_at(l, i as int, lit) {
            Some(i + lit.len())
        } else {
            None
        },
        None => None,
    }
}

/// Past any spaces at `p`.
pub open spec fn after_spaces(l: Seq<char>, p: Option<nat>) -> Option<nat> {
    match p {
        Some(i) => Some(skip_spaces(l, i)),
        None => None,
    }
}

/// Past one or more digits at `p`, if there are any.
pub open spec fn after_number(l: Seq<char>, p: Option<nat>) -> Option<nat> {
    match p {
        Some(i) => if skip_digits(l, i) > i {
            Some(skip_digits(l, i))
        } else {
            None
        },
        None => None,
    }
}

/// The value of the digits at `p`.
pub open spec fn number_at(l: Seq<char>, p: Option<nat>) -> nat {
    match p {
        Some(i) => digits_value(l, i, skip_digits(l, i)),
        None => 0,
    }
}

pub open spec fn lit_fan() -> Seq<char> {
    seq!['f', 'a', 'n', '1', ':']
}

pub open spec fn lit_rpm() -> Seq<char> {
    seq!['R', 'P', 'M']
}

pub open spec fn lit_min() -> Seq<char> {
    seq!['(', 'm', 'i', 'n']
}

pub open spec fn lit_eq() -> Seq<char> {
    seq!['=']
}

pub open spec fn lit_rpm_comma() -> Seq<char> {
    seq!['R', 'P', 'M', ',']
}

pub open spec fn lit_max() -> Seq<char> {
    seq!['m', 'a', 'x']
}

pub open spec fn lit_rpm_close() -> Seq<char> {
    seq!['R', 'P', 'M', ')']
}

/// The three speeds of a fan reading that starts at index `i` of `l`, shaped
/// `fan1: <rpm> RPM (min = <min> RPM, max = <max> RPM)`, where each space
/// stands for any run of spaces, possibly empty, and each number is one or
/// more ASCII digits.
pub open spec fn fan_reading_at(l: Seq<char>, i: nat) -> Option<(nat, nat, nat)> {
    let a = after_spaces(l, after_lit(l, Some(i), lit_fan()));
    let a_end = after_number(l, a);
    let b0 = after_spaces(l, after_lit(l, after_spaces(l, a_end), lit_rpm()));
    let b1 = after_spaces(l, after_lit(l, b0, lit_min()));
    let b = after_spaces(l, after_lit(l, b1, lit_eq()));
    let b_end = after_number(l, b);
    let c0 = after_spaces(l, after_lit(l, after_spaces(l, b_end), lit_rpm_comma()));
    let c1 = after_spaces(l, after_lit(l, c0, lit_max()));
    let c = after_spaces(l, after_lit(l, c1, lit_eq()));
    let c_end = after_number(l, c);
    let end = after_lit(l, after_spaces(l, c_end), lit_rpm_close());
    if end is Some {
        Some((number_at(l, a), number_at(l, b), number_at(l, c)))
    } else {
        None
    }
}

/// The leftmost fan reading in `l` at index `i` or later.
pub open spec fn fan_search(l: Seq<char>, i: nat) -> Option<(nat, nat, nat)>
    decreases l.len() + 1 - i,
{
    if i > l.len() {
        None
    } else if fan_reading_at(l, i) is Some {
        fan_reading_at(l, i)
    } else {
        fan_search(l, i + 1)
    }
}

/// A speed as an `i32`; one too large for it counts as zero.
pub open spec fn speed_of(n: nat) -> i32 {
    if n <= i32::MAX {
        n as i32
    } else {
        0
    }
}

/// `f` is what the line `l` says of a fan: its three speeds and whether it
/// turns ("On" above zero, else "Off"), or nothing when `l` holds no reading.
pub open spec fn fan_info_of(f: FanInfo, l: Seq<char>) -> bool {
    match fan_search(l, 0) {
        Some((a, b, c)) => {
            &&& f.rpm == Some(speed_of(a))
            &&& f.min_rpm == Some(speed_of(b))
            &&& f.max_rpm == Some(speed_of(c))
            &&& f.state is Some
            &&& f.state->Some_0@ == if speed_of(a) > 0 {
                seq!['O', 'n']
            } else {
                seq!['O', 'f', 'f']
            }
        },
        None => {
            &&& f.rpm is None
            &&& f.min_rpm is None
            &&& f.max_rpm is None
            &&& f.state is None
        },
    }
}

/// The lines of `ls` that mention `fan1:`, in order.
pub open spec fn fan_lines(ls: Seq<Seq<char>>) -> Seq<Seq<char>>
    decreases ls.len(),
{
    if ls.len() == 0 {
        ls
    } else if contains_spec(ls.last(), lit_fan()) {
        fan_lines(ls.drop_last()).push(ls.last())
    } else {
        fan_lines(ls.drop_last())
    }
}

/// Skipping from `i` reaches the same place as skipping from any index in
/// between that was passed over.
proof fn lemma_skip_spaces_mid(l: Seq<char>, i: nat, k: nat)
    requires
        i <= k <= l.len(),
        forall|j: int| i <= j < k ==> is_space(#[trigger] l[j]),
    ensures
        skip_spaces(l, i) == skip_spaces(l, k),
    decreases k - i,
{
    if i < k {
        lemma_skip_spaces_mid(l, i + 1, k);
    }
}

proof fn lemma_skip_digits_mid(l: Seq<char>, i: nat, k: nat)
    requires
        i <= k <= l.len(),
        forall|j: int| i <= j < k ==> is_digit(#[trigger] l[j]),
    ensures
        skip_digits(l, i) == skip_digits(l, k),
    decreases k - i,
{
    if i < k {
        lemma_skip_digits_mid(l, i + 1, k);
    }
}

/// Just above `i32::MAX`: a speed counter stops here.
const SPEED_CAP: u64 = 0x8000_0000;

fn is_space_exec(c: char) -> (r: bool)
    ensures
        r == is_space(c),
{
    c == ' ' || c == '\t' || c == '\n' || c == '\r' || c == '\x0B' || c == '\x0C'
}

/// Past `lit` at `i`, if it stands there.
fn lit_end(l: &Vec<char>, i: usize, lit: &Vec<char>) -> (r: Option<usize>)
    requires
        i <= l@.len(),
    ensures
        match r {
            Some(j) => after_lit(l@, Some(i as nat), lit@) == Some(j as nat) && j <= l@.len(),
            None => after_lit(l@, Some(i as nat), lit@) is None,
        },
{
    let len = l.len();
    if occurs_at_exec(l, i, lit) {
        assert(i + lit@.len() <= len);
        Some(i + lit.len())
    } else {
        None
    }
}

/// Past any spaces at `i`.
fn spaces_end(l: &Vec<char>, i0: usize) -> (r: usize)
    requires
        i0 <= l@.len(),
    ensures
        r == skip_spaces(l@, i0 as nat),
        r <= l@.len(),
{
    let mut i = i0;
    while i < l.len() && is_space_exec(l[i])
        invariant
            i0 <= i <= l@.len(),
            forall|j: int| i0 <= j < i ==> j < l@.len() && is_space(l@[j]),
        decreases l@.len() - i,
    {
        i = i + 1;
    }
    proof {
        lemma_skip_spaces_mid(l@, i0 as nat, i as nat);
    }
    i
}

/// Past the digits at `i`, with their value as a speed.
fn number_end(l: &Vec<char>, i0: usize) -> (r: (usize, i32))
    requires
        i0 <= l@.len(),
    ensures
        r.0 == skip_digits(l@, i0 as nat),
        i0 <= r.0 <= l@.len(),
        r.1 == speed_of(digits_value(l@, i0 as nat, r.0 as nat)),
{
    let mut v: u64 = 0;
    let mut i = i0;
    while i < l.len() && '0' <= l[i] && l[i] <= '9'
        invariant
            i0 <= i <= l@.len(),
            forall|j: int| i0 <= j < i ==> j < l@.len() && is_digit(l@[j]),
            v <= SPEED_CAP,
            v == if digits_value(l@, i0 as nat, i as nat) < SPEED_CAP {
                digits_value(l@, i0 as nat, i as nat)
            } else {
                SPEED_CAP as nat
            },
        decreases l@.len() - i,
    {
        let d: u64 = (l[i] as u32 - '0' as u32) as u64;
        assert(digits_value(l@, i0 as nat, (i + 1) as nat) == digits_value(l@, i0 as nat, i as nat)
            * 10 + d);
        assert(d <= 9);
        if v < SPEED_CAP {
            let t: u64 = v * 10 + d;
            if t >= SPEED_CAP {
                v = SPEED_CAP;
            } else {
                v = t;
            }
        }
        i = i + 1;
    }
    proof {
        lemma_skip_digits_mid(l@, i0 as nat, i as nat);
    }
    if v < SPEED_CAP {
        (i, v as i32)
    } else {
        (i, 0)
    }
}

/// The three speeds of a fan reading starting at `i`, if one does.
fn fan_reading_exec(l: &Vec<char>, i: usize) -> (r: Option<(i32, i32, i32)>)
    requires
        i <= l@.len(),
    ensures
        match fan_reading_at(l@, i as nat) {
            Some((a, b, c)) => r == Some((speed_of(a), speed_of(b), speed_of(c))),
            None => r is None,
        },
{
    let fan = vec!['f', 'a', 'n', '1', ':'];
    let rpm = vec!['R', 'P', 'M'];
    let min = vec!['(', 'm', 'i', 'n'];
    let eq = vec!['='];
    let rpm_comma = vec!['R', 'P', 'M', ','];
    let max = vec!['m', 'a', 'x'];
    let rpm_close = vec!['R', 'P', 'M', ')'];
    assert(fan@ =~= lit_fan());
    assert(rpm@ =~= lit_rpm());
    assert(min@ =~= lit_min());
    assert(eq@ =~= lit_eq());
    assert(rpm_comma@ =~= lit_rpm_comma());
    assert(max@ =~= lit_max());
    assert(rpm_close@ =~= lit_rpm_close());
    let p1 = match lit_end(l, i, &fan) {
        Some(p) => p,
        None => return None,
    };
    let a_at = spaces_end(l, p1);
    let (p2, a) = number_end(l, a_at);
    if p2 == a_at {
        return None;
    }
    let p3 = spaces_end(l, p2);
    let p4 = match lit_end(l, p3, &rpm) {
        Some(p) => p,
        None => return None,
    };
    let p5 = spaces_end(l, p4);
    let p6 = match lit_end(l, p5, &min) {
        Some(p) => p,
        None => return None,
    };
    let p7 = spaces_end(l, p6);
    let p8 = match lit_end(l, p7, &eq) {
        Some(p) => p,
        None => return None,
    };
    let b_at = spaces_end(l, p8);
    let (p9, b) = number_end(l, b_at);
    if p9 == b_at {
        return None;
    }
    let p10 = spaces_end(l, p9);
    let p11 = match lit_end(l, p10, &rpm_comma) {
        Some(p) => p,
        None => return None,
    };
    let p12 = spaces_end(l, p11);
    let p13 = match lit_end(l, p12, &max) {
        Some(p) => p,
        None => return None,
    };
    let p14 = spaces_end(l, p13);
    let p15 = match lit_end(l, p14, &eq) {
        Some(p) => p,
        None => return None,
    };
    let c_at = spaces_end(l, p15);
    let (p16, c) = number_end(l, c_at);
    if p16 == c_at {
        return None;
    }
    let p17 = spaces_end(l, p16);
    proof {
        let ll = l@;
        assert(after_spaces(ll, after_lit(ll, Some(i as nat), lit_fan())) == Some(a_at as nat));
        let a_end = after_number(ll, Some(a_at as nat));
        assert(a_end == Some(p2 as nat));
        let b0 = after_spaces(ll, after_lit(ll, after_spaces(ll, a_end), lit_rpm()));
        assert(b0 == Some(p5 as nat));
        let b1 = after_spaces(ll, after_lit(ll, b0, lit_min()));
        assert(b1 == Some(p7 as nat));
        let sb = after_spaces(ll, after_lit(ll, b1, lit_eq()));
        assert(sb == Some(b_at as nat));
        let b_end = after_number(ll, sb);
        assert(b_end == Some(p9 as nat));
        let c0 = after_spaces(ll, after_lit(ll, after_spaces(ll, b_end), lit_rpm_comma()));
        assert(c0 == Some(p12 as nat));
        let c1 = after_spaces(ll, after_lit(ll, c0, lit_max()));
        assert(c1 == Some(p14 as nat));
        let sc = after_spaces(ll, after_lit(ll, c1, lit_eq()));
        assert(sc == Some(c_at as nat));
        let c_end = after_number(ll, sc);
        assert(c_end == Some(p16 as nat));
        assert(after_spaces(ll, c_end) == Some(p17 as nat));
    }
    match lit_end(l, p17, &rpm_close) {
        Some(_) => Some((a, b, c)),
        None => None,
    }
}

/// The leftmost fan reading in `l`, if any.
fn fan_search_exec(l: &Vec<char>) -> (r: Option<(i32, i32, i32)>)
    ensures
        match fan_search(l@, 0) {
            Some((a, b, c)) => r == Some((speed_of(a), speed_of(b), speed_of(c))),
            None => r is None,
        },
{
    let n = l.len();
    let mut i: usize = 0;
    while i < n
        invariant
            n == l@.len(),
            i <= n,
            fan_search(l@, 0) == fan_search(l@, i as nat),
        decreases n - i,
    {
        let r = fan_reading_exec(l, i);
        if r.is_some() {
            return r;
        }
        i = i + 1;
    }
    assert(fan_search(l@, (n + 1) as nat) is None);
    fan_reading_exec(l, n)
}

fn state_of(rpm: i32) -> (r: String)
    ensures
        r@ == if rpm > 0 {
            seq!['O', 'n']
        } else {
            seq!['O', 'f', 'f']
        },
{
    if rpm > 0 {
        let on = vec!['O', 'n'];
        string_from_chars(&on)
    } else {
        let off = vec!['O', 'f', 'f'];
        string_from_chars(&off)
    }
}

fn fan_info_from_chars(l: &Vec<char>) -> (r: FanInfo)
    ensures
        fan_info_of(r, l@),
{
    match fan_search_exec(l) {
        Some((a, b, c)) => FanInfo {
            rpm: Some(a),
            min_rpm: Some(b),
            max_rpm: Some(c),
            state: Some(state_of(a)),
        },
        None => FanInfo { rpm: None, min_rpm: None, max_rpm: None, state: None },
    }
}

/// What one line of `sensors` output says of a fan (see `fan_info_of`).
pub fn parse_fan_line(line: &str) -> (r: FanInfo)
    ensures
        fan_info_of(r, line@),
{
    let l = chars_of(line);
    fan_info_from_chars(&l)
}

/// The fans that the output of `sensors` reports: one for each line that
/// mentions `fan1:`, in order, each as its line says.
pub fn parse_sensors_output(output: &str) -> (r: Vec<FanInfo>)
    ensures
        r@.len() == fan_lines(lines_spec(output@)).len(),
        forall|k: int|
            0 <= k < r@.len() ==> fan_info_of(#[trigger] r@[k], fan_lines(lines_spec(output@))[k]),
{
    let text = chars_of(output);
    let lines = split_lines(&text);
    let fan = vec!['f', 'a', 'n', '1', ':'];
    assert(fan@ =~= lit_fan());
    let ghost ls = lines_spec(output@);
    let mut out: Vec<FanInfo> = Vec::new();
    let mut j: usize = 0;
    while j < lines.len()
        invariant
            fan@ == lit_fan(),
            lines@.len() == ls.len(),
            forall|k: int| 0 <= k < lines@.len() ==> #[trigger] lines@[k]@ == ls[k],
            j <= lines@.len(),
            out@.len() == fan_lines(ls.subrange(0, j as int)).len(),
            forall|k: int|
                0 <= k < out@.len() ==> fan_info_of(
                    #[trigger] out@[k],
                    fan_lines(ls.subrange(0, j as int))[k],
                ),
        decreases lines@.len() - j,
    {
        assert(ls.subrange(0, j + 1).drop_last() =~= ls.subrange(0, j as int));
        assert(ls.subrange(0, j + 1).last() == lines@[j as int]@);
        if contains(&lines[j], &fan) {
            let f = fan_info_from_chars(&lines[j]);
            out.push(f);
        }
        j = j + 1;
    }
    assert(ls.subrange(0, lines@.len() as int) =~= ls);
    out
}

/// The fan-speed probe's answer, in hundredths of RPM, from the fans that
/// `sensors` reported: the first fan's speed; no fan at all means the source
/// is unavailable, and a first fan without a speed is a parse failure.
pub fn fan_reading(fans: &Vec<FanInfo>) -> (r: Result<i64, ProbeError>)
    ensures
        fans@.len() == 0 ==> r == Err::<i64, ProbeError>(ProbeError::SourceUnavailable),
        fans@.len() > 0 && fans@[0].rpm is None ==> r == Err::<i64, ProbeError>(
            ProbeError::ParseFailure,
        ),
        fans@.len() > 0 && fans@[0].rpm is Some ==> r is Ok && r->Ok_0 == fans@[0].rpm->Some_0
            * 100,
{
    if fans.len() == 0 {
        return Err(ProbeError::SourceUnavailable);
    }
    match fans[0].rpm {
        Some(rpm) => Ok(rpm as i64 * 100),
        None => Err(ProbeError::ParseFailure),
    }
}

pub open spec fn lit_package_sensor() -> Seq<char> {
    seq![
        'c', 'o', 'r', 'e', 't', 'e', 'm', 'p', ' ', 'P', 'a', 'c', 'k', 'a', 'g', 'e', ' ', 'i',
        'd', ' ', '0',
    ]
}

/// Which of the temperature sensors, given by their labels, reads the CPU
/// package: the first whose label mentions `coretemp Package id 0`, if any.
pub fn package_sensor_index(labels: &Vec<String>) -> (r: Option<usize>)
    ensures
        match r {
            Some(i) => i < labels@.len() && contains_spec(labels@[i as int]@, lit_package_sensor())
                && forall|j: int|
                0 <= j < i ==> !contains_spec(#[trigger] labels@[j]@, lit_package_sensor()),
            None => forall|j: int|
                0 <= j < labels@.len() ==> !contains_spec(
                    #[trigger] labels@[j]@,
                    lit_package_sensor(),
                ),
        },
{
    let lit = vec![
        'c', 'o', 'r', 'e', 't', 'e', 'm', 'p', ' ', 'P', 'a', 'c', 'k', 'a', 'g', 'e', ' ', 'i',
        'd', ' ', '0',
    ];
    assert(lit@ =~= lit_package_sensor());
    let n = labels.len();
    let mut i: usize = 0;
    while i < n
        invariant
            n == labels@.len(),
            i <= n,
            lit@ == lit_package_sensor(),
            forall|j: int| 0 <= j < i ==> !contains_spec(#[trigger] labels@[j]@, lit_package_sensor()),
        decreases n - i,
    {
        let l = chars_of(labels[i].as_str());
        if contains(&l, &lit) {
            return Some(i);
        }
        i = i + 1;
    }
    None
}

} // verus!
