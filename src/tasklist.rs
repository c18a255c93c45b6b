//! Finding a process id by image name in the system's textual process list,
//! whose lines are CSV records such as `"winlogon.exe","1234","Services",...`.
use vstd::prelude::*;
use vstd::string::*;
use crate::text::{find_char, first_index_of, lemma_first_index_of};

verus! {

/// The arguments of the command interpreter that list, as CSV without a
/// header, the processes whose image is named `name`.
pub fn tasklist_args(name: &str) -> (r: Vec<String>)
    ensures
        r@.len() == 7,
        r@[0]@ == "/C"@,
        r@[1]@ == "tasklist"@,
        r@[2]@ == "/FI"@,
        r@[3]@ == "IMAGENAME eq "@ + name@,
        r@[4]@ == "/FO"@,
        r@[5]@ == "CSV"@,
        r@[6]@ == "/NH"@,
{
    let mut filter = String::from_str("IMAGENAME eq ");
    filter.append(name);
    vec![
        "/C".to_owned(),
        "tasklist".to_owned(),
        "/FI".to_owned(),
        filter,
        "/FO".to_owned(),
        "CSV".to_owned(),
        "/NH".to_owned(),
    ]
}

/// The first line of `s`, without its line ending; none where `s` is empty.
pub open spec fn first_line(s: Seq<char>) -> Option<Seq<char>> {
    if s.len() == 0 {
        None
    } else {
        let l = match first_index_of(s, '\n') {
            Some(e) => s.subrange(0, e),
            None => s,
        };
        if l.len() > 0 && l.last() == '\r' {
            Some(l.drop_last())
        } else {
            Some(l)
        }
    }
}

/// The second comma-separated field of `line`; none where it has no comma.
pub open spec fn second_field(line: Seq<char>) -> Option<Seq<char>> {
    match first_index_of(line, ',') {
        Some(c) => {
            let rest = line.subrange(c + 1, line.len() as int);
            match first_index_of(rest, ',') {
                Some(e) => Some(rest.subrange(0, e)),
                None => Some(rest),
            }
        },
        None => None,
    }
}

/// `s` without the double quotes at its start and at its end.
pub open spec fn trim_quotes(s: Seq<char>) -> Seq<char>
    decreases s.len(),
{
    if s.len() == 0 {
        s
    } else if s[0] == '"' {
        trim_quotes(s.drop_first())
    } else if s.last() == '"' {
        trim_quotes(s.drop_last())
    } else {
        s
    }
}

/// Whether every character of `s` is a decimal digit.
pub open spec fn all_digits(s: Seq<char>) -> bool {
    forall|i: int| 0 <= i < s.len() ==> '0' <= #[trigger] s[i] <= '9'
}

/// The number that the decimal digits `s` write.
pub open spec fn decimal_value(s: Seq<char>) -> nat
    decreases s.len(),
{
    if s.len() == 0 {
        0
    } else {
        decimal_value(s.drop_last()) * 10 + (s.last() as nat - '0' as nat) as nat
    }
}

/// The `u32` that `s` writes in decimal, with an optional leading `+`; none
/// where it writes none or one too large.
pub open spec fn parse_u32_spec(s: Seq<char>) -> Option<u32> {
    let d = if s.len() > 0 && s[0] == '+' { s.drop_first() } else { s };
    if d.len() > 0 && all_digits(d) && decimal_value(d) <= u32::MAX {
        Some(decimal_value(d) as u32)
    } else {
        None
    }
}

/// The process id in the first record of a process list.
pub open spec fn pid_spec(output: Seq<char>) -> Option<u32> {
    match first_line(output) {
        Some(l) => match second_field(l) {
            Some(f) => parse_u32_spec(trim_quotes(f)),
            None => None,
        },
        None => None,
    }
}

proof fn lemma_decimal_prefix(s: Seq<char>, i: int)
    requires
        0 <= i <= s.len(),
        all_digits(s),
    ensures
        decimal_value(s.subrange(0, i)) <= decimal_value(s),
    decreases s.len() - i,
{
    if i == s.len() {
        assert(s.subrange(0, i) =~= s);
    } else {
        lemma_decimal_prefix(s, i + 1);
        let p = s.subrange(0, i + 1);
        assert(p.drop_last() =~= s.subrange(0, i));
    }
}

/// The `u32` that `s` writes in decimal, with an optional leading `+`.
pub fn parse_u32(s: &str) -> (r: Option<u32>)
    ensures
        r == parse_u32_spec(s@),
{
    let n = s.unicode_len();
    let mut i: usize = 0;
    if n > 0 && s.get_char(0) == '+' {
        i = 1;
    }
    let start = i;
    let ghost d = if s@.len() > 0 && s@[0] == '+' { s@.drop_first() } else { s@ };
    assert(d =~= s@.subrange(start as int, n as int));
    if start == n {
        return None;
    }
    let mut acc: u32 = 0;
    while i < n
        invariant
            start <= i <= n,
            n == s@.len(),
            d == s@.subrange(start as int, n as int),
            d == (if s@.len() > 0 && s@[0] == '+' { s@.drop_first() } else { s@ }),
            all_digits(s@.subrange(start as int, i as int)),
            acc as nat == decimal_value(s@.subrange(start as int, i as int)),
        decreases n - i,
    {
        let c = s.get_char(i);
        let ghost p = s@.subrange(start as int, i + 1);
        assert(p.drop_last() =~= s@.subrange(start as int, i as int));
        if c < '0' || c > '9' {
            assert(d[i - start] == c);
            assert(!all_digits(d));
            assert(parse_u32_spec(s@) is None);
            return None;
        }
        let v = (c as u32) - ('0' as u32);
        if acc > (u32::MAX - v) / 10 {
            proof {
                assert(acc * 10 + v > u32::MAX) by (nonlinear_arith)
                    requires
                        acc > (u32::MAX - v) / 10,
                        v <= 9,
                ;
                assert(all_digits(p));
                assert(decimal_value(p) == acc * 10 + v);
                if all_digits(d) {
                    let k: int = i + 1 - start;
                    lemma_decimal_prefix(d, k);
                    assert(d.subrange(0, k) =~= p);
                    assert(decimal_value(d) > u32::MAX);
                }
                assert(parse_u32_spec(s@) is None);
            }
            return None;
        }
        acc = acc * 10 + v;
        i = i + 1;
    }
    assert(s@.subrange(start as int, n as int) =~= d);
    Some(acc)
}

/// The process id in the first record of a process list, as written by the
/// listing that `tasklist_args` asks for.
pub fn pid_from_tasklist(output: &str) -> (r: Option<u32>)
    ensures
        r == pid_spec(output@),
{
    let n = output.unicode_len();
    if n == 0 {
        return None;
    }
    proof { lemma_first_index_of(output@, '\n'); }
    let mut line = match find_char(output, '\n') {
        Some(e) => output.substring_char(0, e),
        None => output.substring_char(0, n),
    };
    assert(output@.subrange(0, n as int) =~= output@);
    let ln = line.unicode_len();
    if ln > 0 && line.get_char(ln - 1) == '\r' {
        line = line.substring_char(0, ln - 1);
    }
    let field = match second_field_of(line) {
        Some(f) => f,
        None => return None,
    };
    let trimmed = trim_quotes_of(field);
    parse_u32(trimmed)
}

fn second_field_of(line: &str) -> (r: Option<&str>)
    ensures
        match r {
            Some(f) => second_field(line@) == Some(f@),
            None => second_field(line@) is None,
        },
{
    let n = line.unicode_len();
    proof { lemma_first_index_of(line@, ','); }
    match find_char(line, ',') {
        Some(c) => {
            let rest = line.substring_char(c + 1, n);
            proof { lemma_first_index_of(rest@, ','); }
            match find_char(rest, ',') {
                Some(e) => Some(rest.substring_char(0, e)),
                None => Some(rest),
            }
        },
        None => None,
    }
}

fn trim_quotes_of(s: &str) -> (r: &str)
    ensures
        r@ == trim_quotes(s@),
{
    let n = s.unicode_len();
    let mut a: usize = 0;
    assert(s@.subrange(0, n as int) =~= s@);
    while a < n && s.get_char(a) == '"'
        invariant
            a <= n,
            n == s@.len(),
            trim_quotes(s@.subrange(a as int, n as int)) == trim_quotes(s@),
        decreases n - a,
    {
        let ghost x = s@.subrange(a as int, n as int);
        assert(x.drop_first() =~= s@.subrange(a + 1, n as int));
        assert(trim_quotes(x) == trim_quotes(x.drop_first()));
        a = a + 1;
    }
    let mut b: usize = n;
    while b > a && s.get_char(b - 1) == '"'
        invariant
            a <= b <= n,
            n == s@.len(),
            trim_quotes(s@.subrange(a as int, b as int)) == trim_quotes(s@),
            a < b ==> s@[a as int] != '"',
        decreases b - a,
    {
        let ghost x = s@.subrange(a as int, b as int);
        assert(x.drop_last() =~= s@.subrange(a as int, b - 1));
        assert(x[0] != '"');
        assert(trim_quotes(x) == trim_quotes(x.drop_last()));
        b = b - 1;
    }
    let r = s.substring_char(a, b);
    proof {
        let x = s@.subrange(a as int, b as int);
        if x.len() > 0 {
            assert(x[0] != '"');
            assert(x.last() != '"');
        }
        assert(trim_quotes(x) == x);
    }
    r
}

} // verus!
