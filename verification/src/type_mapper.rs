//! The type mapper: a pure function from a referenced type name and its
//! occurrence bounds to the emitted Rust type text.
//!
//! Builtin scalar names are matched by the local name, case-insensitively
//! and ignoring any namespace prefix. An unknown name falls back to its
//! pascal-cased local name: an unresolved forward reference is assumed
//! rather than rejected.

use vstd::prelude::*;

use crate::model::AttributeUse;
use crate::names::{is_ascii_digit, spec_ascii_lower, spec_pascal_case, to_ascii_lower,
    to_pascal_case};
use crate::qname::{spec_qname_local, QName};
use crate::text::str_eq;

verus! {

/// The builtin scalar table, keyed by the lower-cased local name.
pub open spec fn spec_builtin(t: Seq<char>) -> Option<Seq<char>> {
    if t == "string"@ || t == "normalizedstring"@ || t == "token"@ || t == "anyuri"@ || t
        == "decimal"@ || t == "datetime"@ || t == "date"@ || t == "time"@ || t == "duration"@ || t
        == "base64binary"@ || t == "hexbinary"@ || t == "qname"@ {
        Some("String"@)
    } else if t == "boolean"@ {
        Some("bool"@)
    } else if t == "int"@ {
        Some("i32"@)
    } else if t == "integer"@ || t == "long"@ {
        Some("i64"@)
    } else if t == "short"@ {
        Some("i16"@)
    } else if t == "byte"@ {
        Some("i8"@)
    } else if t == "unsignedlong"@ {
        Some("u64"@)
    } else if t == "unsignedint"@ {
        Some("u32"@)
    } else if t == "unsignedshort"@ {
        Some("u16"@)
    } else if t == "unsignedbyte"@ {
        Some("u8"@)
    } else if t == "float"@ {
        Some("f32"@)
    } else if t == "double"@ {
        Some("f64"@)
    } else {
        None
    }
}

/// The emitted base type for a referenced type name.
pub open spec fn spec_map_type(q: Seq<char>) -> Seq<char> {
    let local = spec_qname_local(q);
    match spec_builtin(spec_ascii_lower(local)) {
        Some(t) => t,
        None => spec_pascal_case(local),
    }
}

/// Every character is an ASCII digit.
pub open spec fn spec_all_digits(s: Seq<char>) -> bool {
    s.len() > 0 && (forall|i: int| 0 <= i < s.len() ==> is_ascii_digit(s[i]))
}

/// The digit string with its leading zeros removed.
pub open spec fn spec_strip_zeros(s: Seq<char>) -> Seq<char>
    decreases s.len(),
{
    if s.len() > 0 && s[0] == '0' {
        spec_strip_zeros(s.drop_first())
    } else {
        s
    }
}

/// A literal occurrence count whose numeric value exceeds one.
pub open spec fn spec_count_gt_one(s: Seq<char>) -> bool {
    let t = spec_strip_zeros(s);
    spec_all_digits(s) && (t.len() >= 2 || (t.len() == 1 && t[0] > '1'))
}

/// A maximum-occurrence bound that calls for a repeated container.
pub open spec fn spec_is_repeated(max_occurs: Option<Seq<char>>) -> bool {
    match max_occurs {
        Some(s) => s == "unbounded"@ || spec_count_gt_one(s),
        None => false,
    }
}

/// The emitted type for an element, from its type reference, occurrence
/// bounds and nillable flag: repetition wraps in `Vec`, a minimum of zero or
/// nillability wraps in `Option`.
pub open spec fn spec_map_occurs(
    q: Seq<char>,
    min_occurs: Option<u32>,
    max_occurs: Option<Seq<char>>,
    nillable: bool,
) -> Seq<char> {
    let base = spec_map_type(q);
    let rep = if spec_is_repeated(max_occurs) {
        "Vec<"@ + base + ">"@
    } else {
        base
    };
    if min_occurs == Some(0u32) || nillable {
        "Option<"@ + rep + ">"@
    } else {
        rep
    }
}

/// The emitted type for an attribute: unwrapped when required, optional
/// otherwise (prohibited attributes are still emitted as optional).
pub open spec fn spec_map_attribute(q: Seq<char>, use_: AttributeUse) -> Seq<char> {
    if use_ == AttributeUse::Required {
        spec_map_type(q)
    } else {
        "Option<"@ + spec_map_type(q) + ">"@
    }
}

/// Strips leading zeros: when the first `i` characters are `0` and the next
/// one is not, the stripped form is the remainder.
proof fn lemma_strip_zeros_at(s: Seq<char>, i: int)
    requires
        0 <= i <= s.len(),
        forall|j: int| 0 <= j < i ==> s[j] == '0',
        i < s.len() ==> s[i] != '0',
    ensures
        spec_strip_zeros(s) == s.skip(i),
    decreases s.len(),
{
    if s.len() == 0 {
        assert(s.skip(0) =~= s);
    } else if s[0] == '0' {
        let t = s.drop_first();
        assert(i >= 1);
        assert forall|j: int| 0 <= j < i - 1 implies t[j] == '0' by {
            assert(t[j] == s[j + 1]);
        }
        assert(i - 1 < t.len() ==> t[i - 1] != '0');
        lemma_strip_zeros_at(t, i - 1);
        assert(t.skip(i - 1) =~= s.skip(i));
    } else {
        assert(i == 0);
        assert(s.skip(0) =~= s);
    }
}

/// True when the text is a digit string whose value exceeds one.
pub fn count_gt_one(s: &str) -> (r: bool)
    ensures
        r == spec_count_gt_one(s@),
{
    let n: usize = s.unicode_len();
    if n == 0 {
        return false;
    }
    let mut i: usize = 0;
    while i < n
        invariant
            0 <= i <= n,
            n == s@.len(),
            forall|j: int| 0 <= j < i ==> is_ascii_digit(s@[j]),
        decreases n - i,
    {
        let c = s.get_char(i);
        if !(c >= '0' && c <= '9') {
            return false;
        }
        i += 1;
    }
    let mut z: usize = 0;
    while z < n && s.get_char(z) == '0'
        invariant
            0 <= z <= n,
            n == s@.len(),
            forall|j: int| 0 <= j < z ==> s@[j] == '0',
        decreases n - z,
    {
        z += 1;
    }
    proof {
        lemma_strip_zeros_at(s@, z as int);
    }
    if n - z >= 2 {
        true
    } else if n - z == 1 {
        s.get_char(z) > '1'
    } else {
        false
    }
}

/// The builtin scalar table and the occurrence algebra: maps referenced
/// type names to emitted Rust type text.
pub struct TypeMapper {}

impl TypeMapper {
    /// A fresh type mapper.
    pub fn new() -> TypeMapper {
        TypeMapper {  }
    }

    /// The emitted base type for a referenced type name.
    pub fn map_type(&self, q: &QName) -> (r: String)
        ensures
            r@ == spec_map_type(q@),
    {
        let local = q.local_name();
        let t = to_ascii_lower(local);
        let k = t.as_str();
        if str_eq(k, "string") || str_eq(k, "normalizedstring") || str_eq(k, "token") || str_eq(
            k,
            "anyuri",
        ) || str_eq(k, "decimal") || str_eq(k, "datetime") || str_eq(k, "date") || str_eq(k, "time")
            || str_eq(k, "duration") || str_eq(k, "base64binary") || str_eq(k, "hexbinary")
            || str_eq(k, "qname") {
            String::from_str("String")
        } else if str_eq(k, "boolean") {
            String::from_str("bool")
        } else if str_eq(k, "int") {
            String::from_str("i32")
        } else if str_eq(k, "integer") || str_eq(k, "long") {
            String::from_str("i64")
        } else if str_eq(k, "short") {
            String::from_str("i16")
        } else if str_eq(k, "byte") {
            String::from_str("i8")
        } else if str_eq(k, "unsignedlong") {
            String::from_str("u64")
        } else if str_eq(k, "unsignedint") {
            String::from_str("u32")
        } else if str_eq(k, "unsignedshort") {
            String::from_str("u16")
        } else if str_eq(k, "unsignedbyte") {
            String::from_str("u8")
        } else if str_eq(k, "float") {
            String::from_str("f32")
        } else if str_eq(k, "double") {
            String::from_str("f64")
        } else {
            to_pascal_case(local)
        }
    }

    /// The emitted type for an element: repetition wraps in `Vec`, a minimum
    /// of zero or nillability wraps in `Option`.
    pub fn map_type_with_occurs(
        &self,
        q: &QName,
        min_occurs: Option<u32>,
        max_occurs: &Option<String>,
        nillable: bool,
    ) -> (r: String)
        ensures
            r@ == spec_map_occurs(q@, min_occurs, max_occurs.deep_view(), nillable),
    {
        let base = self.map_type(q);
        let repeated = match max_occurs {
            Some(s) => str_eq(s.as_str(), "unbounded") || count_gt_one(s.as_str()),
            None => false,
        };
        let rep = if repeated {
            let mut v = String::from_str("Vec<");
            v.append(base.as_str());
            v.append(">");
            proof {
                assert(v@ =~= "Vec<"@ + spec_map_type(q@) + ">"@);
            }
            v
        } else {
            base
        };
        let optional = match min_occurs {
            Some(m) => m == 0,
            None => false,
        };
        if optional || nillable {
            let mut o = String::from_str("Option<");
            o.append(rep.as_str());
            o.append(">");
            proof {
                assert(o@ =~= "Option<"@ + rep@ + ">"@);
            }
            o
        } else {
            rep
        }
    }

    /// The emitted type for an attribute: unwrapped when required, optional
    /// otherwise.
    pub fn map_attribute_type(&self, q: &QName, use_: AttributeUse) -> (r: String)
        ensures
            r@ == spec_map_attribute(q@, use_),
    {
        let base = self.map_type(q);
        match use_ {
            AttributeUse::Required => base,
            _ => {
                let mut o = String::from_str("Option<");
                o.append(base.as_str());
                o.append(">");
                proof {
                    assert(o@ =~= "Option<"@ + spec_map_type(q@) + ">"@);
                }
                o
            },
        }
    }
}

/// Law: an element with a minimum occurrence of zero and a maximum of one
/// (absent or the literal `1`) maps to an optional, not repeated, type.
pub proof fn lemma_min_zero_maps_to_optional(
    q: Seq<char>,
    max_occurs: Option<Seq<char>>,
    nillable: bool,
)
    requires
        max_occurs is None || max_occurs == Some("1"@),
    ensures
        spec_map_occurs(q, Some(0u32), max_occurs, nillable) == "Option<"@ + spec_map_type(q)
            + ">"@,
{
    reveal_strlit("1");
    reveal_strlit("unbounded");
    if max_occurs == Some("1"@) {
        assert("1"@.len() == 1);
        assert("unbounded"@.len() == 9);
        assert(spec_strip_zeros("1"@) == "1"@);
        assert(!spec_count_gt_one("1"@));
    }
}

/// Law: an element with an unbounded maximum maps to a repeated type; when
/// its minimum is zero besides, the repeated type is wrapped in an optional
/// container.
pub proof fn lemma_unbounded_maps_to_repeated(
    q: Seq<char>,
    min_occurs: Option<u32>,
    nillable: bool,
)
    ensures
        min_occurs != Some(0u32) && !nillable ==> spec_map_occurs(
            q,
            min_occurs,
            Some("unbounded"@),
            nillable,
        ) == "Vec<"@ + spec_map_type(q) + ">"@,
        min_occurs == Some(0u32) ==> spec_map_occurs(q, min_occurs, Some("unbounded"@), nillable)
            == "Option<"@ + ("Vec<"@ + spec_map_type(q) + ">"@) + ">"@,
{
}

/// Law: a required attribute maps to the unwrapped type; an optional or
/// prohibited one maps to the optional-wrapped type.
pub proof fn lemma_attribute_use_mapping(q: Seq<char>, use_: AttributeUse)
    ensures
        use_ == AttributeUse::Required ==> spec_map_attribute(q, use_) == spec_map_type(q),
        use_ != AttributeUse::Required ==> spec_map_attribute(q, use_) == "Option<"@
            + spec_map_type(q) + ">"@,
{
}

} // verus!
