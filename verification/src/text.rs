//! Small verified text helpers: decimal rendering and path joining.

use vstd::prelude::*;

verus! {

/// The character of a decimal digit.
pub open spec fn digit_char(d: nat) -> char {
    if d == 0 {
        '0'
    } else if d == 1 {
        '1'
    } else if d == 2 {
        '2'
    } else if d == 3 {
        '3'
    } else if d == 4 {
        '4'
    } else if d == 5 {
        '5'
    } else if d == 6 {
        '6'
    } else if d == 7 {
        '7'
    } else if d == 8 {
        '8'
    } else {
        '9'
    }
}

/// Decimal representation of a natural number, without leading zeros.
pub open spec fn decimal(n: nat) -> Seq<char>
    decreases n,
{
    if n < 10 {
        seq![digit_char(n)]
    } else {
        decimal(n / 10).push(digit_char(n % 10))
    }
}

fn digit_str(d: u64) -> (s: &'static str)
    requires
        d < 10,
    ensures
        s@ == seq![digit_char(d as nat)],
{
    proof {
        reveal_strlit("0");
        reveal_strlit("1");
        reveal_strlit("2");
        reveal_strlit("3");
        reveal_strlit("4");
        reveal_strlit("5");
        reveal_strlit("6");
        reveal_strlit("7");
        reveal_strlit("8");
        reveal_strlit("9");
    }
    match d {
        0 => "0",
        1 => "1",
        2 => "2",
        3 => "3",
        4 => "4",
        5 => "5",
        6 => "6",
        7 => "7",
        8 => "8",
        _ => "9",
    }
}

/// Renders `n` in base ten.
pub fn decimal_string(n: u64) -> (s: String)
    ensures
        s@ == decimal(n as nat),
    decreases n,
{
    if n < 10 {
        let mut s = String::new();
        s.append(digit_str(n));
        assert(s@ =~= decimal(n as nat));
        s
    } else {
        let mut s = decimal_string(n / 10);
        s.append(digit_str(n % 10));
        assert(s@ =~= decimal(n as nat));
        s
    }
}

/// Concatenation of two strings into a new one.
pub fn concat_str(a: &str, b: &str) -> (s: String)
    ensures
        s@ == a@ + b@,
{
    let mut s = String::new();
    s.append(a);
    s.append(b);
    assert(s@ =~= a@ + b@);
    s
}

/// Whether two strings hold the same characters.
pub fn str_eq(a: &str, b: &str) -> (r: bool)
    ensures
        r == (a@ == b@),
{
    let n = a.unicode_len();
    let m = b.unicode_len();
    if n != m {
        return false;
    }
    let mut i: usize = 0;
    while i < n
        invariant
            n == a@.len(),
            m == b@.len(),
            n == m,
            i <= n,
            forall|j: int| 0 <= j < i ==> a@[j] == b@[j],
        decreases n - i,
    {
        if a.get_char(i) != b.get_char(i) {
            return false;
        }
        i = i + 1;
    }
    assert(a@ =~= b@);
    true
}

/// The path `part` appended to `base`, the way a Unix path is pushed:
/// an absolute `part` replaces `base`, and a separator is put between the
/// two unless `base` is empty or already ends with one.
pub open spec fn path_join(base: Seq<char>, part: Seq<char>) -> Seq<char> {
    if part.len() > 0 && part[0] == '/' {
        part
    } else if base.len() == 0 || base[base.len() - 1] == '/' {
        base + part
    } else {
        base + seq!['/'] + part
    }
}

/// Joins two Unix paths (see `path_join`).
pub fn join_path(base: &str, part: &str) -> (s: String)
    ensures
        s@ == path_join(base@, part@),
{
    proof {
        reveal_strlit("/");
    }
    let n = base.unicode_len();
    let m = part.unicode_len();
    if m > 0 && part.get_char(0) == '/' {
        let mut s = String::new();
        s.append(part);
        assert(s@ =~= part@);
        s
    } else if n == 0 || base.get_char(n - 1) == '/' {
        concat_str(base, part)
    } else {
        let mut s = String::new();
        s.append(base);
        s.append("/");
        s.append(part);
        assert(s@ =~= base@ + seq!['/'] + part@);
        s
    }
}


/// Index of the first `'\n'` at or after `from`, or the length.
pub open spec fn next_newline(s: Seq<char>, from: int) -> int
    decreases s.len() - from,
{
    if from >= s.len() {
        s.len() as int
    } else if s[from] == '\n' {
        from
    } else {
        next_newline(s, from + 1)
    }
}

/// A line without its trailing carriage return, if any.
pub open spec fn strip_cr(l: Seq<char>) -> Seq<char> {
    if l.len() > 0 && l[l.len() - 1] == '\r' {
        l.drop_last()
    } else {
        l
    }
}

/// The lines of `s` from position `from` on, the way `str::lines` splits:
/// at each `'\n'`, dropping one `'\r'` before it, with no empty line after
/// a final line ending.
pub open spec fn lines_from(s: Seq<char>, from: nat) -> Seq<Seq<char>>
    decreases s.len() + 1 - from,
{
    if from >= s.len() {
        Seq::empty()
    } else {
        let e = next_newline(s, from as int);
        proof {
            lemma_next_newline(s, from as int);
        }
        seq![strip_cr(s.subrange(from as int, e))] + lines_from(s, (e + 1) as nat)
    }
}

/// The lines of a text.
pub open spec fn lines(s: Seq<char>) -> Seq<Seq<char>> {
    lines_from(s, 0)
}

pub proof fn lemma_next_newline(s: Seq<char>, from: int)
    requires
        0 <= from <= s.len(),
    ensures
        from <= next_newline(s, from) <= s.len(),
        forall|k: int| from <= k < next_newline(s, from) ==> s[k] != '\n',
        next_newline(s, from) < s.len() ==> s[next_newline(s, from)] == '\n',
    decreases s.len() - from,
{
    if from < s.len() && s[from] != '\n' {
        lemma_next_newline(s, from + 1);
    }
}

/// Split a text into lines (see `lines`).
pub fn split_lines(s: &str) -> (r: Vec<String>)
    ensures
        r@.map_values(|l: String| l@) == lines(s@),
{
    let n = s.unicode_len();
    let mut r: Vec<String> = Vec::new();
    let mut start: usize = 0;
    while start < n
        invariant
            n == s@.len(),
            start <= n,
            r@.map_values(|l: String| l@) + lines_from(s@, start as nat) == lines(s@),
        decreases n - start,
    {
        let mut e = start;
        proof {
            lemma_next_newline(s@, start as int);
        }
        while e < n && s.get_char(e) != '\n'
            invariant
                n == s@.len(),
                start <= e <= n,
                forall|k: int| start <= k < e ==> s@[k] != '\n',
                next_newline(s@, start as int) >= e,
                forall|k: int| start <= k < next_newline(s@, start as int) ==> s@[k] != '\n',
                next_newline(s@, start as int) < s@.len() ==> s@[next_newline(s@, start as int)]
                    == '\n',
            decreases n - e,
        {
            e = e + 1;
        }
        assert(e == next_newline(s@, start as int));
        let mut end = e;
        if end > start && s.get_char(end - 1) == '\r' {
            end = end - 1;
        }
        let piece = s.substring_char(start, end);
        let line = String::from_str(piece);
        assert(line@ == strip_cr(s@.subrange(start as int, e as int)));
        let ghost before = r@;
        r.push(line);
        assert(r@.map_values(|l: String| l@) =~= before.map_values(|l: String| l@).push(line@));
        assert(lines_from(s@, start as nat) == seq![line@] + lines_from(s@, (e + 1) as nat));
        assert(r@.map_values(|l: String| l@) + lines_from(s@, (e + 1) as nat) =~= before.map_values(
            |l: String| l@,
        ) + lines_from(s@, start as nat));
        if e >= n {
            assert(lines_from(s@, (e + 1) as nat) =~= Seq::<Seq<char>>::empty());
            start = n;
        } else {
            start = e + 1;
        }
    }
    assert(r@.map_values(|l: String| l@) =~= lines(s@));
    r
}

} // verus!
