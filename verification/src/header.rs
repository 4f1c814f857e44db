use vstd::prelude::*;

use crate::text::chars_of;
use crate::text::chars_string;

verus! {

/// Linear whitespace around a header value: space, tab, and the line
/// terminators.
pub open spec fn is_ws(b: u8) -> bool {
    b == 32 || b == 9 || b == 13 || b == 10
}

/// Index of the first colon byte of the line, or -1 when it holds none.
pub open spec fn first_colon(s: Seq<u8>) -> int
    decreases s.len(),
{
    if s.len() == 0 {
        -1
    } else if s[0] == 58 {
        0
    } else if first_colon(s.drop_first()) == -1 {
        -1
    } else {
        1 + first_colon(s.drop_first())
    }
}

/// The line without its leading whitespace.
pub open spec fn trim_front(s: Seq<u8>) -> Seq<u8>
    decreases s.len(),
{
    if s.len() > 0 && is_ws(s[0]) {
        trim_front(s.drop_first())
    } else {
        s
    }
}

/// The line without its trailing whitespace.
pub open spec fn trim_back(s: Seq<u8>) -> Seq<u8>
    decreases s.len(),
{
    if s.len() > 0 && is_ws(s.last()) {
        trim_back(s.drop_last())
    } else {
        s
    }
}

/// The line without leading and trailing whitespace.
pub open spec fn trim_ws(s: Seq<u8>) -> Seq<u8> {
    trim_back(trim_front(s))
}

/// What a raw header line parses to: the bytes before the first colon
/// are the name, the bytes after it — stripped of surrounding
/// whitespace — are the value. A line without a colon (such as the
/// transfer status line) parses to nothing.
pub open spec fn parse_spec(line: Seq<u8>) -> Option<(Seq<char>, Seq<char>)> {
    let c = first_colon(line);
    if c == -1 {
        None
    } else {
        Some(
            (
                chars_of(line.subrange(0, c)),
                chars_of(trim_ws(line.subrange(c + 1, line.len() as int))),
            ),
        )
    }
}

proof fn lemma_first_colon_at(s: Seq<u8>, i: int)
    requires
        0 <= i < s.len(),
        s[i] == 58,
        forall|j: int| 0 <= j < i ==> s[j] != 58,
    ensures
        first_colon(s) == i,
    decreases i,
{
    if i > 0 {
        assert(s[0] != 58);
        let t = s.drop_first();
        assert(t[i - 1] == s[i]);
        assert(forall|j: int| 0 <= j < i - 1 ==> t[j] == s[j + 1] && s[j + 1] != 58);
        lemma_first_colon_at(t, i - 1);
    }
}

proof fn lemma_first_colon_none(s: Seq<u8>)
    requires
        forall|j: int| 0 <= j < s.len() ==> s[j] != 58,
    ensures
        first_colon(s) == -1,
    decreases s.len(),
{
    if s.len() > 0 {
        assert(s[0] != 58);
        let t = s.drop_first();
        assert(forall|j: int| 0 <= j < t.len() ==> t[j] == s[j + 1] && s[j + 1] != 58);
        lemma_first_colon_none(t);
    }
}

/// Whether the byte counts as whitespace around a header value.
fn ws(b: u8) -> (r: bool)
    ensures
        r == is_ws(b),
{
    b == 32 || b == 9 || b == 13 || b == 10
}

/// Position of the first colon of the line, if any.
fn find_colon(line: &Vec<u8>) -> (r: Option<usize>)
    ensures
        r is None ==> first_colon(line@) == -1,
        r matches Some(i) ==> i < line@.len() && first_colon(line@) == i,
{
    let n = line.len();
    let mut i: usize = 0;
    while i < n
        invariant
            n == line@.len(),
            i <= n,
            forall|j: int| 0 <= j < i ==> line@[j] != 58,
        decreases n - i,
    {
        if line[i] == 58 {
            proof {
                lemma_first_colon_at(line@, i as int);
            }
            return Some(i);
        }
        i += 1;
    }
    proof {
        lemma_first_colon_none(line@);
    }
    None
}

/// Splits a raw header line into its name and its value. Lines without
/// a colon — the transfer status line among them — yield nothing.
pub fn parse(line: &Vec<u8>) -> (r: Option<(String, String)>)
    ensures
        parse_spec(line@) is None ==> r is None,
        parse_spec(line@) matches Some(p) ==> (r matches Some(q) && q.0@ == p.0 && q.1@
            == p.1),
{
    let n = line.len();
    match find_colon(line) {
        None => None,
        Some(c) => {
            let name = chars_string(line, 0, c);
            let ghost full = line@.subrange(c + 1, n as int);
            let mut lo: usize = c + 1;
            while lo < n && ws(line[lo])
                invariant
                    n == line@.len(),
                    c + 1 <= lo <= n,
                    trim_front(full) == trim_front(line@.subrange(lo as int, n as int)),
                decreases n - lo,
            {
                proof {
                    let s = line@.subrange(lo as int, n as int);
                    assert(s[0] == line@[lo as int]);
                    assert(s.drop_first() =~= line@.subrange(lo as int + 1, n as int));
                }
                lo += 1;
            }
            proof {
                let s = line@.subrange(lo as int, n as int);
                assert(trim_front(s) == s);
                assert(trim_front(full) == s);
            }
            let mut hi: usize = n;
            while lo < hi && ws(line[hi - 1])
                invariant
                    n == line@.len(),
                    lo <= hi <= n,
                    lo >= c + 1,
                    trim_back(trim_front(full)) == trim_back(
                        line@.subrange(lo as int, hi as int),
                    ),
                decreases hi,
            {
                proof {
                    let s = line@.subrange(lo as int, hi as int);
                    assert(s.last() == line@[hi - 1]);
                    assert(s.drop_last() =~= line@.subrange(lo as int, hi as int - 1));
                }
                hi -= 1;
            }
            proof {
                let s = line@.subrange(lo as int, hi as int);
                assert(trim_back(s) == s);
                assert(trim_ws(full) == s);
            }
            let val = chars_string(line, lo, hi);
            Some((name, val))
        },
    }
}

} // verus!
