use vstd::prelude::*;

use crate::artifacts::{FieldView, Msg, MsgView};
use crate::common::{concat, spaces, TAB_SIZE};
use crate::field_formatter::{field_to_member, target_name, target_type};
use crate::rust_artifacts::{member_text, member_texts, struct_text, FormatParameters, Struct};

verus! {

/// The member line that a field becomes: its mapped name and its mapped type.
pub open spec fn field_line(f: FieldView) -> Seq<char> {
    spaces(TAB_SIZE as nat) + target_name(f.name) + ": "@ + target_type(f.value) + ",\n"@
}

/// The member lines of a message, in field order.
pub open spec fn field_lines(m: MsgView) -> Seq<Seq<char>> {
    m.fields.map_values(|f: FieldView| field_line(f))
}

/// The struct block that a message becomes, indented by `depth` spaces.
pub open spec fn msg_block(m: MsgView, depth: nat) -> Seq<char> {
    spaces(depth) + "pub struct "@ + m.name + " {\n"@ + concat(field_lines(m)) + spaces(depth) + "}"@
}

/// Builds the struct declaration for a message, indented by `depth` spaces.
pub fn msg_to_struct(msg: &Msg, depth: usize) -> (r: Struct)
    ensures
        r.name@ == msg.name@,
        r.format_params.width() == depth,
        r.members@.len() == msg.fields@.len(),
        forall|i: int|
            0 <= i < msg.fields@.len() ==> member_text(#[trigger] r.members@[i]) == field_line(
                msg.fields@[i]@,
            ),
        struct_text(r) == msg_block(msg@, depth as nat),
{
    let mut _struct = Struct::default();
    let format = FormatParameters::new(depth);
    _struct.name = msg.name.clone();
    _struct.format_params = format;
    let mut i: usize = 0;
    while i < msg.fields.len()
        invariant
            i <= msg.fields@.len(),
            _struct.name@ == msg.name@,
            _struct.format_params.width() == depth,
            _struct.members@.len() == i,
            forall|k: int|
                0 <= k < i ==> member_text(#[trigger] _struct.members@[k]) == field_line(
                    msg.fields@[k]@,
                ),
        decreases msg.fields@.len() - i,
    {
        let member = field_to_member(&msg.fields[i]);
        assert(member_text(member) =~= field_line(msg.fields@[i as int]@));
        _struct.members.push(member);
        i = i + 1;
    }
    assert(member_texts(_struct) =~= field_lines(msg@));
    _struct
}

} // verus!
