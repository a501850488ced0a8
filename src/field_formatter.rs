use vstd::prelude::*;

use crate::artifacts::Field;
use crate::common::{char_seq, find_char, find_char_from, push_char, range_is};
use crate::rust_artifacts::StructMember;

verus! {

/// The target type of a primitive schema type, if the token is one.
pub open spec fn primitive_of(t: Seq<char>) -> Option<Seq<char>> {
    if t == "float64"@ {
        Some("f64"@)
    } else if t == "float32"@ {
        Some("f32"@)
    } else if t == "int8"@ {
        Some("i8"@)
    } else if t == "int16"@ {
        Some("i16"@)
    } else if t == "int32"@ {
        Some("i32"@)
    } else if t == "uint8"@ || t == "byte"@ || t == "char"@ {
        Some("u8"@)
    } else if t == "uint16"@ {
        Some("u16"@)
    } else if t == "uint32"@ {
        Some("u32"@)
    } else if t == "uint64"@ {
        Some("u64"@)
    } else if t == "string"@ {
        Some("String"@)
    } else if t == "time"@ || t == "duration"@ {
        Some("usize"@)
    } else {
        None
    }
}

/// A schema path with each package separator `/` written as the module separator `::`.
pub open spec fn qualify(t: Seq<char>) -> Seq<char>
    decreases t.len(),
{
    if t.len() == 0 {
        t
    } else {
        qualify(t.drop_last()) + if t.last() == '/' {
            "::"@
        } else {
            seq![t.last()]
        }
    }
}

/// The type token without its array marker: everything before the first `[`.
pub open spec fn element_type(t: Seq<char>) -> Seq<char> {
    t.take(find_char(t, '[', 0))
}

/// Whether the type token carries an array marker.
pub open spec fn is_array_type(t: Seq<char>) -> bool {
    find_char(t, '[', 0) < t.len()
}

/// The target type of a non-array type token: a primitive from the table, or the
/// token passed through with its package separators rewritten.
pub open spec fn scalar_type(t: Seq<char>) -> Seq<char> {
    match primitive_of(t) {
        Some(p) => p,
        None => qualify(t),
    }
}

/// The target type of a raw schema type token.
pub open spec fn target_type(t: Seq<char>) -> Seq<char> {
    if is_array_type(t) {
        "Vec<"@ + scalar_type(element_type(t)) + ">"@
    } else {
        scalar_type(t)
    }
}

/// The collision-safe name of a field: `type` is a reserved word of the target language.
pub open spec fn target_name(n: Seq<char>) -> Seq<char> {
    if n == "type"@ {
        "_type"@
    } else {
        n
    }
}

fn primitive_lookup(chars: &Vec<char>, k: usize) -> (r: Option<&'static str>)
    requires
        k <= chars.len(),
    ensures
        match r {
            Some(l) => primitive_of(chars@.take(k as int)) == Some(l@),
            None => primitive_of(chars@.take(k as int)) is None,
        },
{
    assert(chars@.subrange(0, k as int) =~= chars@.take(k as int));
    if range_is(chars, 0, k, "float64") {
        Some("f64")
    } else if range_is(chars, 0, k, "float32") {
        Some("f32")
    } else if range_is(chars, 0, k, "int8") {
        Some("i8")
    } else if range_is(chars, 0, k, "int16") {
        Some("i16")
    } else if range_is(chars, 0, k, "int32") {
        Some("i32")
    } else if range_is(chars, 0, k, "uint8") || range_is(chars, 0, k, "byte") || range_is(
        chars,
        0,
        k,
        "char",
    ) {
        Some("u8")
    } else if range_is(chars, 0, k, "uint16") {
        Some("u16")
    } else if range_is(chars, 0, k, "uint32") {
        Some("u32")
    } else if range_is(chars, 0, k, "uint64") {
        Some("u64")
    } else if range_is(chars, 0, k, "string") {
        Some("String")
    } else if range_is(chars, 0, k, "time") || range_is(chars, 0, k, "duration") {
        Some("usize")
    } else {
        None
    }
}

/// Appends `chars[0..k]` to `out`, with each `/` written as `::`.
fn push_qualified(out: &mut String, chars: &Vec<char>, k: usize)
    requires
        k <= chars.len(),
    ensures
        final(out)@ == old(out)@ + qualify(chars@.take(k as int)),
{
    let mut i: usize = 0;
    while i < k
        invariant
            k <= chars.len(),
            i <= k,
            out@ == old(out)@ + qualify(chars@.take(i as int)),
        decreases k - i,
    {
        assert(chars@.take(i + 1).drop_last() =~= chars@.take(i as int));
        if chars[i] == '/' {
            out.append("::");
        } else {
            push_char(out, chars[i]);
            assert(seq![chars@[i as int]] =~= Seq::<char>::empty().push(chars@[i as int]));
        }
        assert(out@ =~= old(out)@ + qualify(chars@.take(i + 1)));
        i = i + 1;
    }
}

/// Maps a raw schema type token to its target type.
pub fn map_type(m_type: &String) -> (r: String)
    ensures
        r@ == target_type(m_type@),
{
    let chars = char_seq(m_type.as_str());
    let k = find_char_from(&chars, '[', 0);
    let is_array = k < chars.len();
    let mut out = String::new();
    if is_array {
        out.append("Vec<");
    }
    match primitive_lookup(&chars, k) {
        Some(l) => out.append(l),
        None => push_qualified(&mut out, &chars, k),
    }
    if is_array {
        out.append(">");
    }
    assert(chars@.take(k as int) == element_type(m_type@));
    if !is_array {
        assert(chars@.take(k as int) =~= m_type@);
    }
    assert(out@ =~= target_type(m_type@));
    out
}

/// Maps a raw field name to a name that is not a reserved word.
pub fn map_name(name: &String) -> (r: String)
    ensures
        r@ == target_name(name@),
{
    if crate::common::text_eq(name.as_str(), "type") {
        String::from_str("_type")
    } else {
        name.clone()
    }
}

proof fn lemma_find_char_after(a: Seq<char>, b: Seq<char>, c: char, i: int)
    requires
        0 <= i <= a.len(),
        forall|k: int| 0 <= k < a.len() ==> a[k] != c,
        b.len() > 0,
        b[0] == c,
    ensures
        find_char(a + b, c, i) == a.len(),
    decreases a.len() - i,
{
    if i < a.len() {
        lemma_find_char_after(a, b, c, i + 1);
    }
}

/// Every primitive type token maps to one fixed target type, and the same token with an
/// array marker `[]` maps to a sequence of that type.
pub proof fn lemma_array_of_primitive(t: Seq<char>)
    requires
        primitive_of(t) is Some,
    ensures
        target_type(t) == primitive_of(t)->0,
        target_type(t + "[]"@) == "Vec<"@ + target_type(t) + ">"@,
{
    reveal_strlit("float64");
    reveal_strlit("float32");
    reveal_strlit("int8");
    reveal_strlit("int16");
    reveal_strlit("int32");
    reveal_strlit("uint8");
    reveal_strlit("byte");
    reveal_strlit("char");
    reveal_strlit("uint16");
    reveal_strlit("uint32");
    reveal_strlit("uint64");
    reveal_strlit("string");
    reveal_strlit("time");
    reveal_strlit("duration");
    reveal_strlit("[]");
    assert(forall|k: int| 0 <= k < t.len() ==> t[k] != '[');
    lemma_find_char_after(t, "[]"@, '[', 0);
    assert((t + "[]"@).take(t.len() as int) =~= t);
    if find_char(t, '[', 0) < t.len() {
        crate::common::lemma_find_char_bounds(t, '[', 0);
    }
}

/// The struct member that a field becomes: mapped name, mapped type, no extra indentation.
pub fn field_to_member(field: &Field) -> (r: StructMember)
    ensures
        r.format.width() == 0,
        r.name@ == target_name(field.name@),
        r._type@ == target_type(field.value@),
{
    let mut member = StructMember::default();
    member.name = map_name(&field.name);
    member._type = map_type(&field.value);
    member
}

} // verus!
