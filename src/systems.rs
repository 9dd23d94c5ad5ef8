use vstd::prelude::*;

use crate::lines::{contains, contains_spec, first_index, lemma_first_index, lines_spec, split_lines};
use crate::text::{chars_of, string_from_chars};

verus! {

pub open spec fn not_available() -> Seq<char> {
    seq!['N', '/', 'A']
}

pub open spec fn lit_pretty_name() -> Seq<char> {
    seq!['P', 'R', 'E', 'T', 'T', 'Y', '_', 'N', 'A', 'M', 'E']
}

/// `s` without the double quotes that open it.
pub open spec fn trim_leading_quotes(s: Seq<char>) -> Seq<char>
    decreases s.len(),
{
    if s.len() > 0 && s[0] == '"' {
        trim_leading_quotes(s.drop_first())
    } else {
        s
    }
}

/// `s` without the double quotes that close it.
pub open spec fn trim_trailing_quotes(s: Seq<char>) -> Seq<char>
    decreases s.len(),
{
    if s.len() > 0 && s.last() == '"' {
        trim_trailing_quotes(s.drop_last())
    } else {
        s
    }
}

/// The second `=`-separated field of `l`, when `l` has an `=`.
pub open spec fn second_field(l: Seq<char>) -> Seq<char> {
    let rest = l.subrange(first_index(l, '=') as int + 1, l.len() as int);
    rest.subrange(0, first_index(rest, '=') as int)
}

/// What a line of `/etc/os-release` gives as the system's name: on a line that
/// mentions `PRETTY_NAME` and has an `=`, the text after the first `=` (up to
/// any further `=`) without surrounding double quotes.
pub open spec fn os_name_of_line(l: Seq<char>) -> Option<Seq<char>> {
    if contains_spec(l, lit_pretty_name()) && first_index(l, '=') < l.len() {
        Some(trim_trailing_quotes(trim_leading_quotes(second_field(l))))
    } else {
        None
    }
}

/// The system's name from the first line that gives one, else `N/A`.
pub open spec fn os_name_of_lines(ls: Seq<Seq<char>>) -> Seq<char>
    decreases ls.len(),
{
    if ls.len() == 0 {
        not_available()
    } else {
        match os_name_of_line(ls[0]) {
            Some(name) => name,
            None => os_name_of_lines(ls.drop_first()),
        }
    }
}

/// The text of `s`, or `N/A` when there is none.
pub open spec fn or_not_available(s: Option<String>) -> Seq<char> {
    match s {
        Some(t) => t@,
        None => not_available(),
    }
}

/// A description of the host.
pub struct Computer {
    pub cpu_core_count: usize,
    pub cpu_info: String,
    pub os_info: String,
    pub hostname: String,
    pub username: String,
}

fn not_available_string() -> (r: String)
    ensures
        r@ == not_available(),
{
    let na = vec!['N', '/', 'A'];
    string_from_chars(&na)
}

fn index_of(l: &Vec<char>, c: char) -> (r: usize)
    ensures
        r == first_index(l@, c),
        r <= l@.len(),
{
    let n = l.len();
    let mut i: usize = 0;
    while i < n && l[i] != c
        invariant
            n == l@.len(),
            i <= n,
            forall|j: int| 0 <= j < i ==> l@[j] != c,
        decreases n - i,
    {
        i = i + 1;
    }
    proof {
        lemma_first_index(l@, c, i as nat);
    }
    i
}

/// `v[a..b]`.
fn copy_range(v: &Vec<char>, a: usize, b: usize) -> (r: Vec<char>)
    requires
        a <= b <= v@.len(),
    ensures
        r@ == v@.subrange(a as int, b as int),
{
    let mut out: Vec<char> = Vec::new();
    let mut i = a;
    while i < b
        invariant
            a <= i <= b <= v@.len(),
            out@ == v@.subrange(a as int, i as int),
        decreases b - i,
    {
        out.push(v[i]);
        assert(out@ =~= v@.subrange(a as int, i + 1));
        i = i + 1;
    }
    out
}

fn trim_quotes(s: &Vec<char>) -> (r: Vec<char>)
    ensures
        r@ == trim_trailing_quotes(trim_leading_quotes(s@)),
{
    let n = s.len();
    let mut a: usize = 0;
    assert(s@.subrange(0, n as int) =~= s@);
    while a < n && s[a] == '"'
        invariant
            n == s@.len(),
            a <= n,
            trim_leading_quotes(s@) == trim_leading_quotes(s@.subrange(a as int, n as int)),
        decreases n - a,
    {
        assert(s@.subrange(a as int, n as int).drop_first() =~= s@.subrange(a + 1, n as int));
        a = a + 1;
    }
    let ghost front = s@.subrange(a as int, n as int);
    assert(trim_leading_quotes(front) == front);
    let mut b: usize = n;
    while b > a && s[b - 1] == '"'
        invariant
            n == s@.len(),
            a <= b <= n,
            front == s@.subrange(a as int, n as int),
            trim_trailing_quotes(front) == trim_trailing_quotes(s@.subrange(a as int, b as int)),
        decreases b - a,
    {
        assert(s@.subrange(a as int, b as int).drop_last() =~= s@.subrange(a as int, b - 1));
        b = b - 1;
    }
    copy_range(s, a, b)
}

fn os_name_of_line_exec(l: &Vec<char>, pretty: &Vec<char>) -> (r: Option<Vec<char>>)
    requires
        pretty@ == lit_pretty_name(),
    ensures
        match os_name_of_line(l@) {
            Some(name) => r is Some && r->Some_0@ == name,
            None => r is None,
        },
{
    if !contains(l, pretty) {
        return None;
    }
    let eq = index_of(l, '=');
    if eq >= l.len() {
        return None;
    }
    let rest = copy_range(l, eq + 1, l.len());
    let end = index_of(&rest, '=');
    let field = copy_range(&rest, 0, end);
    Some(trim_quotes(&field))
}

/// The system's name as `/etc/os-release` gives it (see `os_name_of_lines`).
pub fn get_os_info(os_release: &str) -> (r: String)
    ensures
        r@ == os_name_of_lines(lines_spec(os_release@)),
{
    let text = chars_of(os_release);
    let lines = split_lines(&text);
    let pretty = vec!['P', 'R', 'E', 'T', 'T', 'Y', '_', 'N', 'A', 'M', 'E'];
    assert(pretty@ =~= lit_pretty_name());
    let ghost ls = lines_spec(os_release@);
    let n = lines.len();
    let mut j: usize = 0;
    assert(ls.subrange(0, n as int) =~= ls);
    while j < n
        invariant
            n == lines@.len(),
            ls == lines_spec(os_release@),
            pretty@ == lit_pretty_name(),
            lines@.len() == ls.len(),
            forall|k: int| 0 <= k < lines@.len() ==> #[trigger] lines@[k]@ == ls[k],
            j <= n,
            os_name_of_lines(ls) == os_name_of_lines(ls.subrange(j as int, n as int)),
        decreases n - j,
    {
        assert(ls.subrange(j as int, n as int)[0] == lines@[j as int]@);
        assert(ls.subrange(j as int, n as int).drop_first() =~= ls.subrange(j + 1, n as int));
        match os_name_of_line_exec(&lines[j], &pretty) {
            Some(name) => {
                let ghost rest = ls.subrange(j as int, n as int);
                assert(os_name_of_line(rest[0]) == Some(name@));
                assert(os_name_of_lines(rest) == name@);
                let r = string_from_chars(&name);
                return r;
            },
            None => {},
        }
        j = j + 1;
    }
    not_available_string()
}

impl Computer {
    /// A description with nothing known yet: no cores, and `N/A` for each text.
    pub fn new() -> (r: Computer)
        ensures
            r.cpu_core_count == 0,
            r.cpu_info@ == not_available(),
            r.os_info@ == not_available(),
            r.hostname@ == not_available(),
            r.username@ == not_available(),
    {
        Computer {
            cpu_core_count: 0,
            cpu_info: not_available_string(),
            os_info: not_available_string(),
            hostname: not_available_string(),
            username: not_available_string(),
        }
    }

    /// Fills in the description from what was read of the host: the brand of
    /// each CPU core, the text of `/etc/os-release`, the host name and the
    /// user name. What could not be read is shown as `N/A`.
    pub fn initialize(
        &mut self,
        cpu_brands: &Vec<String>,
        os_release: Option<&str>,
        hostname: Option<String>,
        username: Option<String>,
    )
        ensures
            final(self).cpu_core_count == cpu_brands@.len(),
            final(self).cpu_info@ == if cpu_brands@.len() > 0 {
                cpu_brands@[0]@
            } else {
                not_available()
            },
            final(self).os_info@ == match os_release {
                Some(t) => os_name_of_lines(lines_spec(t@)),
                None => not_available(),
            },
            final(self).hostname@ == or_not_available(hostname),
            final(self).username@ == or_not_available(username),
    {
        self.cpu_core_count = cpu_brands.len();
        self.cpu_info = if cpu_brands.len() > 0 {
            cpu_brands[0].clone()
        } else {
            not_available_string()
        };
        self.os_info = match os_release {
            Some(t) => get_os_info(t),
            None => not_available_string(),
        };
        self.hostname = match hostname {
            Some(h) => h,
            None => not_available_string(),
        };
        self.username = match username {
            Some(u) => u,
            None => not_available_string(),
        };
    }
}

} // verus!
