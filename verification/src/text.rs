//! Small verified utilities over strings: equality of two string slices and
//! search for the first occurrence of a character.

use vstd::prelude::*;

verus! {

/// Index of the first occurrence of `c` in `s`, if any.
pub open spec fn spec_find(s: Seq<char>, c: char) -> Option<int>
    decreases s.len(),
{
    if s.len() == 0 {
        None
    } else if s[0] == c {
        Some(0)
    } else {
        match spec_find(s.drop_first(), c) {
            Some(i) => Some(i + 1),
            None => None,
        }
    }
}

/// `spec_find` returns the least index holding `c`, or `None` when `c` does
/// not occur.
pub proof fn lemma_find_characterization(s: Seq<char>, c: char)
    ensures
        match spec_find(s, c) {
            Some(i) => 0 <= i < s.len() && s[i] == c && (forall|j: int| 0 <= j < i ==> s[j] != c),
            None => forall|j: int| 0 <= j < s.len() ==> s[j] != c,
        },
    decreases s.len(),
{
    if s.len() > 0 && s[0] != c {
        let t = s.drop_first();
        lemma_find_characterization(t, c);
        match spec_find(t, c) {
            Some(i) => {
                assert(t[i] == s[i + 1]);
                assert forall|j: int| 0 <= j < i + 1 implies s[j] != c by {
                    if j > 0 {
                        assert(s[j] == t[j - 1]);
                    }
                }
            },
            None => {
                assert forall|j: int| 0 <= j < s.len() implies s[j] != c by {
                    if j > 0 {
                        assert(s[j] == t[j - 1]);
                    }
                }
            },
        }
    }
}

/// First index of `c` in `s`.
pub fn find_char(s: &str, c: char) -> (r: Option<usize>)
    ensures
        match r {
            Some(i) => spec_find(s@, c) == Some(i as int),
            None => spec_find(s@, c) == None::<int>,
        },
{
    let n: usize = s.unicode_len();
    let mut i: usize = 0;
    while i < n
        invariant
            0 <= i <= n,
            n == s@.len(),
            forall|j: int| 0 <= j < i ==> s@[j] != c,
        decreases n - i,
    {
        if s.get_char(i) == c {
            proof {
                lemma_find_characterization(s@, c);
            }
            return Some(i);
        }
        i += 1;
    }
    proof {
        lemma_find_characterization(s@, c);
    }
    None
}

/// Relies on `String::push` of std: appends the given character at the end
/// of the string.
#[verifier::external_body]
pub fn push_char(s: &mut String, c: char)
    ensures
        final(s)@ == old(s)@.push(c),
{
    s.push(c);
}

/// True when the two string slices hold the same characters.
pub fn str_eq(a: &str, b: &str) -> (r: bool)
    ensures
        r == (a@ == b@),
{
    let na: usize = a.unicode_len();
    let nb: usize = b.unicode_len();
    if na != nb {
        return false;
    }
    let mut i: usize = 0;
    while i < na
        invariant
            0 <= i <= na,
            na == a@.len(),
            na == b@.len(),
            forall|j: int| 0 <= j < i ==> a@[j] == b@[j],
        decreases na - i,
    {
        if a.get_char(i) != b.get_char(i) {
            return false;
        }
        i += 1;
    }
    proof {
        assert(a@ =~= b@);
    }
    true
}

/// True when the string slice and the string hold the same characters.
pub fn string_eq_str(a: &String, b: &str) -> (r: bool)
    ensures
        r == (a@ == b@),
{
    str_eq(a.as_str(), b)
}

/// A blank character stripped from the ends of documentation lines.
pub open spec fn is_blank_char(c: char) -> bool {
    c == ' ' || c == '\t' || c == '\r'
}

/// The text with its leading blank characters removed.
pub open spec fn spec_trim_start(s: Seq<char>) -> Seq<char>
    decreases s.len(),
{
    if s.len() > 0 && is_blank_char(s[0]) {
        spec_trim_start(s.drop_first())
    } else {
        s
    }
}

/// The text with its trailing blank characters removed.
pub open spec fn spec_trim_end(s: Seq<char>) -> Seq<char>
    decreases s.len(),
{
    if s.len() > 0 && is_blank_char(s.last()) {
        spec_trim_end(s.drop_last())
    } else {
        s
    }
}

/// The text with blank characters removed from both ends.
pub open spec fn spec_trim(s: Seq<char>) -> Seq<char> {
    spec_trim_end(spec_trim_start(s))
}

proof fn lemma_trim_start_at(s: Seq<char>, a: int)
    requires
        0 <= a <= s.len(),
        forall|j: int| 0 <= j < a ==> is_blank_char(s[j]),
        a < s.len() ==> !is_blank_char(s[a]),
    ensures
        spec_trim_start(s) == s.skip(a),
    decreases s.len(),
{
    if s.len() > 0 && is_blank_char(s[0]) {
        let t = s.drop_first();
        assert(a >= 1);
        assert forall|j: int| 0 <= j < a - 1 implies is_blank_char(t[j]) by {
            assert(t[j] == s[j + 1]);
        }
        lemma_trim_start_at(t, a - 1);
        assert(t.skip(a - 1) =~= s.skip(a));
    } else {
        assert(a == 0);
        assert(s.skip(0) =~= s);
    }
}

proof fn lemma_trim_end_at(s: Seq<char>, b: int)
    requires
        0 <= b <= s.len(),
        forall|j: int| b <= j < s.len() ==> is_blank_char(s[j]),
        b > 0 ==> !is_blank_char(s[b - 1]),
    ensures
        spec_trim_end(s) == s.take(b),
    decreases s.len(),
{
    if s.len() > 0 && is_blank_char(s.last()) {
        let t = s.drop_last();
        assert(b <= s.len() - 1);
        lemma_trim_end_at(t, b);
        assert(t.take(b) =~= s.take(b));
    } else {
        assert(b == s.len());
        assert(s.take(b) =~= s);
    }
}

/// True when the character is a blank stripped from line ends.
pub fn blank_char(c: char) -> (r: bool)
    ensures
        r == is_blank_char(c),
{
    c == ' ' || c == '\t' || c == '\r'
}

/// The slice with blank characters removed from both ends.
pub fn trim_blank(s: &str) -> (r: &str)
    ensures
        r@ == spec_trim(s@),
{
    let n: usize = s.unicode_len();
    let mut a: usize = 0;
    while a < n && blank_char(s.get_char(a))
        invariant
            0 <= a <= n,
            n == s@.len(),
            forall|j: int| 0 <= j < a ==> is_blank_char(s@[j]),
        decreases n - a,
    {
        a += 1;
    }
    let mut b: usize = n;
    while b > a && blank_char(s.get_char(b - 1))
        invariant
            a <= b <= n,
            n == s@.len(),
            forall|j: int| b <= j < n ==> is_blank_char(s@[j]),
        decreases b,
    {
        b -= 1;
    }
    proof {
        lemma_trim_start_at(s@, a as int);
        let t = s@.skip(a as int);
        assert forall|j: int| b - a <= j < t.len() implies is_blank_char(t[j]) by {
            assert(t[j] == s@[j + a]);
        }
        if b > a {
            assert(t[b - a - 1] == s@[b - 1]);
        }
        lemma_trim_end_at(t, b - a);
        assert(t.take(b - a) =~= s@.subrange(a as int, b as int));
    }
    s.substring_char(a, b)
}

/// The text split at every occurrence of the separator; a trailing
/// separator yields no extra empty part.
pub open spec fn spec_split_at(s: Seq<char>, sep: char) -> Seq<Seq<char>>
    decreases s.len(),
{
    if s.len() == 0 {
        seq![]
    } else {
        match spec_find(s, sep) {
            Some(i) => if 0 <= i < s.len() {
                seq![s.take(i)] + spec_split_at(s.skip(i + 1), sep)
            } else {
                seq![s]
            },
            None => seq![s],
        }
    }
}

/// The text split at every newline.
pub open spec fn spec_split_lines(s: Seq<char>) -> Seq<Seq<char>> {
    spec_split_at(s, '\n')
}

/// Split the text at every occurrence of the separator.
pub fn split_at_char(s: &str, sep: char) -> (r: Vec<String>)
    ensures
        r.deep_view() == spec_split_at(s@, sep),
{
    let n: usize = s.unicode_len();
    let mut out: Vec<String> = Vec::new();
    let mut start: usize = 0;
    proof {
        assert(s@.skip(0) =~= s@);
        assert(out.deep_view() =~= Seq::<Seq<char>>::empty());
        assert(Seq::<Seq<char>>::empty() + spec_split_at(s@, sep) =~= spec_split_at(s@, sep));
    }
    while start < n
        invariant
            0 <= start <= n,
            n == s@.len(),
            spec_split_at(s@, sep) == out.deep_view() + spec_split_at(s@.skip(start as int), sep),
        decreases n - start,
    {
        let rem = s.substring_char(start, n);
        let ghost prev = out.deep_view();
        let ghost rs = s@.skip(start as int);
        match find_char(rem, sep) {
            Some(i) => {
                proof {
                    lemma_find_characterization(rem@, sep);
                }
                let line = rem.substring_char(0, i);
                out.push(String::from_str(line));
                proof {
                    assert(rem@ =~= rs);
                    assert(rs.skip(i + 1) =~= s@.skip(start + i + 1));
                    assert(line@ =~= rs.take(i as int));
                    assert(out.deep_view() =~= prev.push(rs.take(i as int)));
                    assert(prev.push(rs.take(i as int)) + spec_split_at(rs.skip(i + 1), sep) =~=
                        prev + (seq![rs.take(i as int)] + spec_split_at(rs.skip(i + 1), sep)));
                }
                start = start + i + 1;
            },
            None => {
                out.push(String::from_str(rem));
                proof {
                    assert(rem@ =~= rs);
                    assert(out.deep_view() =~= prev.push(rs));
                    assert(prev.push(rs) =~= prev + seq![rs]);
                    assert(spec_split_at(s@.skip(n as int), sep) =~= Seq::<Seq<char>>::empty());
                    assert(prev + seq![rs] + Seq::<Seq<char>>::empty() =~= prev + seq![rs]);
                }
                start = n;
            },
        }
    }
    proof {
        assert(s@.skip(n as int) =~= Seq::<char>::empty());
        assert(out.deep_view() + Seq::<Seq<char>>::empty() =~= out.deep_view());
    }
    out
}

/// Split the text at every newline.
pub fn split_lines(s: &str) -> (r: Vec<String>)
    ensures
        r.deep_view() == spec_split_lines(s@),
{
    split_at_char(s, '\n')
}

} // verus!
