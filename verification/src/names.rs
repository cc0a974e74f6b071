//! Case conversion and identifier sanitization: turns schema-level names into
//! Rust identifiers for emitted code.

use vstd::prelude::*;

use crate::text::{push_char, str_eq};

verus! {

pub open spec fn is_ascii_upper(c: char) -> bool {
    'A' <= c && c <= 'Z'
}

pub open spec fn is_ascii_lower(c: char) -> bool {
    'a' <= c && c <= 'z'
}

pub open spec fn is_ascii_digit(c: char) -> bool {
    '0' <= c && c <= '9'
}

/// The lower-case form of an ASCII letter; any other character is unchanged.
pub open spec fn spec_lower_char(c: char) -> char {
    if is_ascii_upper(c) {
        (((c as u8) + 32) as u8) as char
    } else {
        c
    }
}

/// The upper-case form of an ASCII letter; any other character is unchanged.
pub open spec fn spec_upper_char(c: char) -> char {
    if is_ascii_lower(c) {
        (((c as u8) - 32) as u8) as char
    } else {
        c
    }
}

pub fn lower_char(c: char) -> (r: char)
    ensures
        r == spec_lower_char(c),
{
    if c >= 'A' && c <= 'Z' {
        let b: u8 = c as u8;
        (b + 32) as char
    } else {
        c
    }
}

pub fn upper_char(c: char) -> (r: char)
    ensures
        r == spec_upper_char(c),
{
    if c >= 'a' && c <= 'z' {
        let b: u8 = c as u8;
        (b - 32) as char
    } else {
        c
    }
}

/// Every character lower-cased (ASCII letters only).
pub open spec fn spec_ascii_lower(s: Seq<char>) -> Seq<char> {
    s.map_values(|c: char| spec_lower_char(c))
}

pub fn to_ascii_lower(s: &str) -> (r: String)
    ensures
        r@ == spec_ascii_lower(s@),
{
    let n: usize = s.unicode_len();
    let mut out = String::new();
    let mut i: usize = 0;
    while i < n
        invariant
            0 <= i <= n,
            n == s@.len(),
            out@ == spec_ascii_lower(s@.take(i as int)),
        decreases n - i,
    {
        push_char(&mut out, lower_char(s.get_char(i)));
        proof {
            assert(s@.take(i + 1).map_values(|c: char| spec_lower_char(c)) =~= s@.take(
                i as int,
            ).map_values(|c: char| spec_lower_char(c)).push(spec_lower_char(s@[i as int])));
        }
        i += 1;
    }
    proof {
        assert(s@.take(n as int) =~= s@);
    }
    out
}

/// What one character contributes to the snake-case form: an upper-case
/// letter becomes an underscore (except at the start) and its lower-case
/// form; any other character is kept.
pub open spec fn spec_snake_piece(c: char, first: bool) -> Seq<char> {
    if is_ascii_upper(c) {
        if first {
            seq![spec_lower_char(c)]
        } else {
            seq!['_', spec_lower_char(c)]
        }
    } else {
        seq![c]
    }
}

/// The snake-case form of a name: `userName` becomes `user_name`.
pub open spec fn spec_snake_case(s: Seq<char>) -> Seq<char>
    decreases s.len(),
{
    if s.len() == 0 {
        seq![]
    } else {
        spec_snake_case(s.drop_last()) + spec_snake_piece(s.last(), s.len() == 1)
    }
}

pub fn to_snake_case(s: &str) -> (r: String)
    ensures
        r@ == spec_snake_case(s@),
{
    let n: usize = s.unicode_len();
    let mut out = String::new();
    let mut i: usize = 0;
    proof {
        reveal_strlit("_");
    }
    while i < n
        invariant
            0 <= i <= n,
            n == s@.len(),
            "_"@ == seq!['_'],
            out@ == spec_snake_case(s@.take(i as int)),
        decreases n - i,
    {
        let c = s.get_char(i);
        if c >= 'A' && c <= 'Z' {
            if i > 0 {
                out.append("_");
            }
            push_char(&mut out, lower_char(c));
        } else {
            push_char(&mut out, c);
        }
        proof {
            let t = s@.take(i + 1);
            assert(t.drop_last() =~= s@.take(i as int));
            assert(t.last() == s@[i as int]);
            assert(out@ =~= spec_snake_case(s@.take(i as int)) + spec_snake_piece(
                s@[i as int],
                i == 0,
            ));
        }
        i += 1;
    }
    proof {
        assert(s@.take(n as int) =~= s@);
    }
    out
}

/// A character that separates words in a schema name.
pub open spec fn is_separator(c: char) -> bool {
    c == '_' || c == '-' || c == ' ' || c == '.'
}

/// The pascal-case form of the remaining characters, given whether the next
/// kept character starts a word.
pub open spec fn spec_pascal_rec(s: Seq<char>, boundary: bool) -> Seq<char>
    decreases s.len(),
{
    if s.len() == 0 {
        seq![]
    } else if is_separator(s[0]) {
        spec_pascal_rec(s.drop_first(), true)
    } else if boundary {
        seq![spec_upper_char(s[0])] + spec_pascal_rec(s.drop_first(), false)
    } else {
        seq![s[0]] + spec_pascal_rec(s.drop_first(), false)
    }
}

/// The pascal-case form of a name: `getAllVersions` becomes
/// `GetAllVersions`, `user_name` becomes `UserName`.
pub open spec fn spec_pascal_case(s: Seq<char>) -> Seq<char> {
    spec_pascal_rec(s, true)
}

pub fn to_pascal_case(s: &str) -> (r: String)
    ensures
        r@ == spec_pascal_case(s@),
{
    let n: usize = s.unicode_len();
    let mut out = String::new();
    let mut boundary = true;
    let mut i: usize = 0;
    proof {
        assert(s@.skip(0) =~= s@);
        assert(out@ + spec_pascal_rec(s@, true) =~= spec_pascal_rec(s@, true));
    }
    while i < n
        invariant
            0 <= i <= n,
            n == s@.len(),
            spec_pascal_case(s@) == out@ + spec_pascal_rec(s@.skip(i as int), boundary),
        decreases n - i,
    {
        let c = s.get_char(i);
        let ghost prev = out@;
        let ghost rest = s@.skip(i as int);
        proof {
            assert(rest.len() > 0);
            assert(rest[0] == s@[i as int]);
            assert(rest.drop_first() =~= s@.skip(i + 1));
        }
        if c == '_' || c == '-' || c == ' ' || c == '.' {
            boundary = true;
        } else if boundary {
            push_char(&mut out, upper_char(c));
            boundary = false;
            proof {
                let tail = spec_pascal_rec(s@.skip(i + 1), false);
                assert(out@ + tail =~= prev + (seq![spec_upper_char(rest[0])] + tail));
            }
        } else {
            push_char(&mut out, c);
            proof {
                let tail = spec_pascal_rec(s@.skip(i + 1), false);
                assert(out@ + tail =~= prev + (seq![rest[0]] + tail));
            }
        }
        i += 1;
    }
    proof {
        assert(s@.skip(n as int) =~= Seq::<char>::empty());
        assert(out@ + Seq::<char>::empty() =~= out@);
    }
    out
}

/// A character acceptable inside a Rust identifier.
pub open spec fn is_ident_char(c: char) -> bool {
    is_ascii_lower(c) || is_ascii_upper(c) || is_ascii_digit(c) || c == '_'
}

pub open spec fn spec_ident_char(c: char) -> char {
    if is_ident_char(c) {
        c
    } else {
        '_'
    }
}

/// Every character outside the identifier alphabet replaced by `_`.
pub open spec fn spec_replace_invalid(s: Seq<char>) -> Seq<char> {
    s.map_values(|c: char| spec_ident_char(c))
}

/// A Rust keyword that a schema name may collide with.
pub open spec fn spec_is_reserved(s: Seq<char>) -> bool {
    ||| s == "as"@
    ||| s == "async"@
    ||| s == "await"@
    ||| s == "break"@
    ||| s == "const"@
    ||| s == "continue"@
    ||| s == "crate"@
    ||| s == "dyn"@
    ||| s == "else"@
    ||| s == "enum"@
    ||| s == "false"@
    ||| s == "fn"@
    ||| s == "for"@
    ||| s == "if"@
    ||| s == "impl"@
    ||| s == "in"@
    ||| s == "let"@
    ||| s == "loop"@
    ||| s == "match"@
    ||| s == "mod"@
    ||| s == "move"@
    ||| s == "mut"@
    ||| s == "pub"@
    ||| s == "ref"@
    ||| s == "return"@
    ||| s == "self"@
    ||| s == "static"@
    ||| s == "struct"@
    ||| s == "super"@
    ||| s == "trait"@
    ||| s == "true"@
    ||| s == "type"@
    ||| s == "use"@
    ||| s == "where"@
    ||| s == "while"@
}

pub fn is_reserved(s: &str) -> (r: bool)
    ensures
        r == spec_is_reserved(s@),
{
    str_eq(s, "as") || str_eq(s, "async") || str_eq(s, "await") || str_eq(s, "break") || str_eq(
        s,
        "const",
    ) || str_eq(s, "continue") || str_eq(s, "crate") || str_eq(s, "dyn") || str_eq(s, "else")
        || str_eq(s, "enum") || str_eq(s, "false") || str_eq(s, "fn") || str_eq(s, "for") || str_eq(
        s,
        "if",
    ) || str_eq(s, "impl") || str_eq(s, "in") || str_eq(s, "let") || str_eq(s, "loop") || str_eq(
        s,
        "match",
    ) || str_eq(s, "mod") || str_eq(s, "move") || str_eq(s, "mut") || str_eq(s, "pub") || str_eq(
        s,
        "ref",
    ) || str_eq(s, "return") || str_eq(s, "self") || str_eq(s, "static") || str_eq(s, "struct")
        || str_eq(s, "super") || str_eq(s, "trait") || str_eq(s, "true") || str_eq(s, "type")
        || str_eq(s, "use") || str_eq(s, "where") || str_eq(s, "while")
}

/// The sanitized identifier: invalid characters replaced, an empty result
/// named `field`, a leading digit shielded, a keyword suffixed with `_`.
pub open spec fn spec_sanitize(s: Seq<char>) -> Seq<char> {
    let t = spec_replace_invalid(s);
    if t.len() == 0 {
        "field"@
    } else if is_ascii_digit(t[0]) {
        seq!['_'] + t
    } else if spec_is_reserved(t) {
        t + seq!['_']
    } else {
        t
    }
}

pub fn sanitize_identifier(s: &str) -> (r: String)
    ensures
        r@ == spec_sanitize(s@),
{
    let n: usize = s.unicode_len();
    let mut t = String::new();
    let mut i: usize = 0;
    while i < n
        invariant
            0 <= i <= n,
            n == s@.len(),
            t@ == spec_replace_invalid(s@.take(i as int)),
        decreases n - i,
    {
        let c = s.get_char(i);
        let kept = if (c >= 'a' && c <= 'z') || (c >= 'A' && c <= 'Z') || (c >= '0' && c <= '9')
            || c == '_' {
            c
        } else {
            '_'
        };
        push_char(&mut t, kept);
        proof {
            assert(s@.take(i + 1).map_values(|c: char| spec_ident_char(c)) =~= s@.take(
                i as int,
            ).map_values(|c: char| spec_ident_char(c)).push(spec_ident_char(s@[i as int])));
        }
        i += 1;
    }
    proof {
        assert(s@.take(n as int) =~= s@);
        assert(t@ == spec_replace_invalid(s@));
    }
    if t.as_str().unicode_len() == 0 {
        return String::from_str("field");
    }
    let first = t.as_str().get_char(0);
    if first >= '0' && first <= '9' {
        let mut out = String::from_str("_");
        out.append(t.as_str());
        proof {
            reveal_strlit("_");
            assert(out@ =~= seq!['_'] + t@);
        }
        return out;
    }
    if is_reserved(t.as_str()) {
        t.append("_");
        proof {
            reveal_strlit("_");
            assert(t@ =~= spec_replace_invalid(s@) + seq!['_']);
        }
        return t;
    }
    t
}

} // verus!
