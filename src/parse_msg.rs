use vstd::prelude::*;

use crate::artifacts::{Field, FieldView, Msg, MsgDTO, MsgView};
use crate::common::{char_seq, find_char, find_char_from, lemma_find_char_bounds, string_of_range};

verus! {

/// A separator between the fragments of a definition line.
pub open spec fn is_blank(c: char) -> bool {
    c == ' ' || c == '\t' || c == '\n' || c == '\r' || c == '\x0C'
}

/// The first position at or after `i` that is not blank, or the length.
pub open spec fn skip_blank(s: Seq<char>, i: int) -> int
    decreases s.len() - i,
{
    if i < 0 || i >= s.len() {
        s.len() as int
    } else if is_blank(s[i]) {
        skip_blank(s, i + 1)
    } else {
        i
    }
}

/// The first position at or after `i` that is blank, or the length: the end of a fragment.
pub open spec fn fragment_end(s: Seq<char>, i: int) -> int
    decreases s.len() - i,
{
    if i < 0 || i >= s.len() {
        s.len() as int
    } else if is_blank(s[i]) {
        i
    } else {
        fragment_end(s, i + 1)
    }
}

/// The first position at or after `i` that is blank or `=`, or the length: the end of a
/// field name, which stops before any constant value.
pub open spec fn name_end(s: Seq<char>, i: int) -> int
    decreases s.len() - i,
{
    if i < 0 || i >= s.len() {
        s.len() as int
    } else if is_blank(s[i]) || s[i] == '=' {
        i
    } else {
        name_end(s, i + 1)
    }
}

/// The `(type, name)` pair of one definition line: the first fragment and the second
/// one cut at its first `=`. Lines with fewer than two fragments, and lines whose first
/// fragment starts with `#`, give nothing.
pub open spec fn line_token(l: Seq<char>) -> Option<(Seq<char>, Seq<char>)> {
    let a0 = skip_blank(l, 0);
    let e0 = fragment_end(l, a0);
    let a1 = skip_blank(l, e0);
    if a1 >= l.len() || l[a0] == '#' {
        None
    } else {
        Some((l.subrange(a0, e0), l.subrange(a1, name_end(l, a1))))
    }
}

/// The lines of `s` that start at or after position `i`; a final line break ends the
/// last line and starts none.
pub open spec fn lines_from(s: Seq<char>, i: int) -> Seq<Seq<char>>
    decreases s.len() + 1 - i,
    via lines_from_decreases
{
    if i < 0 || i >= s.len() {
        seq![]
    } else {
        seq![s.subrange(i, find_char(s, '\n', i))] + lines_from(s, find_char(s, '\n', i) + 1)
    }
}

#[via_fn]
proof fn lines_from_decreases(s: Seq<char>, i: int) {
    if 0 <= i < s.len() {
        lemma_find_char_bounds(s, '\n', i);
    }
}

/// The lines of a text.
pub open spec fn lines(s: Seq<char>) -> Seq<Seq<char>> {
    lines_from(s, 0)
}

/// The pairs of a sequence of lines, in order.
pub open spec fn line_tokens(ls: Seq<Seq<char>>) -> Seq<(Seq<char>, Seq<char>)>
    decreases ls.len(),
{
    if ls.len() == 0 {
        seq![]
    } else {
        match line_token(ls[0]) {
            Some(t) => seq![t] + line_tokens(ls.drop_first()),
            None => line_tokens(ls.drop_first()),
        }
    }
}

/// The `(type, name)` pairs of a definition text, in line order.
pub open spec fn source_tokens(s: Seq<char>) -> Seq<(Seq<char>, Seq<char>)> {
    line_tokens(lines(s))
}

/// The fields that a sequence of `(type, name)` pairs declares, in order.
pub open spec fn fields_of(tokens: Seq<(Seq<char>, Seq<char>)>) -> Seq<FieldView> {
    tokens.map_values(|t: (Seq<char>, Seq<char>)| FieldView { name: t.1, value: t.0 })
}

/// The message that a definition text declares under the given name.
pub open spec fn msg_of_source(name: Seq<char>, source: Seq<char>) -> MsgView {
    MsgView { name, fields: fields_of(source_tokens(source)) }
}

/// Whether a line declares nothing by its form: it has no fragment, or its first
/// fragment starts a comment.
pub open spec fn is_blank_or_comment(l: Seq<char>) -> bool {
    skip_blank(l, 0) >= l.len() || l[skip_blank(l, 0)] == '#'
}

proof fn lemma_no_tokens_in_lines(ls: Seq<Seq<char>>)
    requires
        forall|k: int| 0 <= k < ls.len() ==> is_blank_or_comment(#[trigger] ls[k]),
    ensures
        line_tokens(ls) == Seq::<(Seq<char>, Seq<char>)>::empty(),
    decreases ls.len(),
{
    if ls.len() > 0 {
        let l = ls[0];
        assert(is_blank_or_comment(l));
        lemma_skip_blank_bounds(l, 0);
        if skip_blank(l, 0) >= l.len() {
            lemma_fragment_end_bounds(l, skip_blank(l, 0));
            lemma_skip_blank_bounds(l, fragment_end(l, skip_blank(l, 0)));
        }
        assert(line_token(l) is None);
        assert forall|k: int| 0 <= k < ls.drop_first().len() implies is_blank_or_comment(
            #[trigger] ls.drop_first()[k],
        ) by {
            assert(ls.drop_first()[k] == ls[k + 1]);
        }
        lemma_no_tokens_in_lines(ls.drop_first());
    }
}

/// A text whose every line is blank or a comment declares no field: it tokenizes to
/// zero pairs. (`tokenize_source` still returns a record for it when it is not empty:
/// a message without fields, not the absence of content.)
pub proof fn lemma_comment_only_source(s: Seq<char>)
    requires
        forall|k: int| 0 <= k < lines(s).len() ==> is_blank_or_comment(#[trigger] lines(s)[k]),
    ensures
        source_tokens(s) == Seq::<(Seq<char>, Seq<char>)>::empty(),
{
    lemma_no_tokens_in_lines(lines(s));
}

proof fn lemma_skip_blank_bounds(s: Seq<char>, i: int)
    requires
        0 <= i <= s.len(),
    ensures
        i <= skip_blank(s, i) <= s.len(),
    decreases s.len() - i,
{
    if i < s.len() && is_blank(s[i]) {
        lemma_skip_blank_bounds(s, i + 1);
    }
}

proof fn lemma_fragment_end_bounds(s: Seq<char>, i: int)
    requires
        0 <= i <= s.len(),
    ensures
        i <= fragment_end(s, i) <= s.len(),
    decreases s.len() - i,
{
    if i < s.len() && !is_blank(s[i]) {
        lemma_fragment_end_bounds(s, i + 1);
    }
}

proof fn lemma_name_end_bounds(s: Seq<char>, i: int)
    requires
        0 <= i <= s.len(),
    ensures
        i <= name_end(s, i) <= s.len(),
    decreases s.len() - i,
{
    if i < s.len() && !(is_blank(s[i]) || s[i] == '=') {
        lemma_name_end_bounds(s, i + 1);
    }
}

fn skip_blank_from(l: &Vec<char>, from: usize) -> (r: usize)
    requires
        from <= l.len(),
    ensures
        r == skip_blank(l@, from as int),
        from <= r <= l.len(),
{
    proof {
        lemma_skip_blank_bounds(l@, from as int);
    }
    let mut i = from;
    while i < l.len() && (l[i] == ' ' || l[i] == '\t' || l[i] == '\n' || l[i] == '\r' || l[i]
        == '\x0C')
        invariant
            from <= i <= l.len(),
            skip_blank(l@, i as int) == skip_blank(l@, from as int),
        decreases l.len() - i,
    {
        i = i + 1;
    }
    i
}

fn fragment_end_from(l: &Vec<char>, from: usize) -> (r: usize)
    requires
        from <= l.len(),
    ensures
        r == fragment_end(l@, from as int),
        from <= r <= l.len(),
{
    proof {
        lemma_fragment_end_bounds(l@, from as int);
    }
    let mut i = from;
    while i < l.len() && !(l[i] == ' ' || l[i] == '\t' || l[i] == '\n' || l[i] == '\r' || l[i]
        == '\x0C')
        invariant
            from <= i <= l.len(),
            fragment_end(l@, i as int) == fragment_end(l@, from as int),
        decreases l.len() - i,
    {
        i = i + 1;
    }
    i
}

fn name_end_from(l: &Vec<char>, from: usize) -> (r: usize)
    requires
        from <= l.len(),
    ensures
        r == name_end(l@, from as int),
        from <= r <= l.len(),
{
    proof {
        lemma_name_end_bounds(l@, from as int);
    }
    let mut i = from;
    while i < l.len() && !(l[i] == ' ' || l[i] == '\t' || l[i] == '\n' || l[i] == '\r' || l[i]
        == '\x0C' || l[i] == '=')
        invariant
            from <= i <= l.len(),
            name_end(l@, i as int) == name_end(l@, from as int),
        decreases l.len() - i,
    {
        i = i + 1;
    }
    i
}

/// The `(type, name)` pair of one line given as characters.
fn line_token_of(l: &Vec<char>) -> (r: Option<(String, String)>)
    ensures
        r.deep_view() == line_token(l@),
{
    let a0 = skip_blank_from(l, 0);
    let e0 = fragment_end_from(l, a0);
    let a1 = skip_blank_from(l, e0);
    if a1 >= l.len() {
        return None;
    }
    if l[a0] == '#' {
        return None;
    }
    let n1 = name_end_from(l, a1);
    let m_type = string_of_range(l, a0, e0);
    let name = string_of_range(l, a1, n1);
    Some((m_type, name))
}

/// The `(type, name)` pair of one definition line, if it declares one.
pub fn handle_token_line(line: &str) -> (r: Option<(String, String)>)
    ensures
        r.deep_view() == line_token(line@),
{
    let chars = char_seq(line);
    line_token_of(&chars)
}

/// Copies `chars[from..to]`.
fn copy_range(chars: &Vec<char>, from: usize, to: usize) -> (r: Vec<char>)
    requires
        from <= to <= chars.len(),
    ensures
        r@ == chars@.subrange(from as int, to as int),
{
    let mut r: Vec<char> = Vec::new();
    let mut i = from;
    while i < to
        invariant
            from <= i <= to <= chars.len(),
            r@ == chars@.subrange(from as int, i as int),
        decreases to - i,
    {
        r.push(chars[i]);
        assert(r@ =~= chars@.subrange(from as int, i + 1));
        i = i + 1;
    }
    r
}

/// Tokenizes a definition text: nothing for an empty text, else its title and its
/// `(type, name)` pairs in line order.
pub fn tokenize_source(name: String, source: String) -> (r: Option<MsgDTO>)
    ensures
        r is None <==> source@.len() == 0,
        r matches Some(dto) ==> dto.title@ == name@ && dto.tokens.deep_view() == source_tokens(
            source@,
        ),
{
    if source.as_str().is_empty() {
        return None;
    }
    let mut msg = MsgDTO::default();
    msg.title = name;
    let chars = char_seq(source.as_str());
    let ghost s = source@;
    let mut i: usize = 0;
    assert(msg.tokens.deep_view() =~= Seq::<(Seq<char>, Seq<char>)>::empty());
    while i < chars.len()
        invariant
            i <= chars.len(),
            s == chars@,
            msg.title@ == name@,
            msg.tokens.deep_view() + line_tokens(lines_from(s, i as int)) == source_tokens(s),
        decreases chars.len() - i,
    {
        let e = find_char_from(&chars, '\n', i);
        let line = copy_range(&chars, i, e);
        let ghost before = msg.tokens.deep_view();
        let ghost rest = lines_from(s, e + 1);
        assert(lines_from(s, i as int) == seq![line@] + rest);
        assert((seq![line@] + rest).drop_first() =~= rest);
        assert((seq![line@] + rest)[0] == line@);
        match line_token_of(&line) {
            Some(t) => {
                msg.tokens.push(t);
                assert(msg.tokens.deep_view() =~= before.push((t.0@, t.1@)));
                assert(before.push((t.0@, t.1@)) + line_tokens(rest) =~= before + (seq![
                    (t.0@, t.1@),
                ] + line_tokens(rest)));
            },
            None => {},
        }
        if e < chars.len() {
            i = e + 1;
        } else {
            assert(lines_from(s, e + 1) =~= Seq::<Seq<char>>::empty());
            i = e;
        }
    }
    assert(lines_from(s, i as int) =~= Seq::<Seq<char>>::empty());
    assert(msg.tokens.deep_view() + line_tokens(Seq::<Seq<char>>::empty())
        =~= msg.tokens.deep_view());
    Some(msg)
}

/// Builds the message that a token record declares: one field per pair, in order.
pub fn generate_data_model(msg: MsgDTO) -> (r: Msg)
    ensures
        r@ == (MsgView { name: msg.title@, fields: fields_of(msg.tokens.deep_view()) }),
        r.constants@.len() == 0,
{
    let mut out = Msg::default();
    out.name = msg.title.clone();
    let mut i: usize = 0;
    assert(out.fields@.len() == out@.fields.len());
    while i < msg.tokens.len()
        invariant
            i <= msg.tokens@.len(),
            out.name@ == msg.title@,
            out.constants@.len() == 0,
            out@.fields == fields_of(msg.tokens.deep_view()).take(i as int),
        decreases msg.tokens@.len() - i,
    {
        let mut msg_mem = Field::default();
        msg_mem.name = msg.tokens[i].1.clone();
        msg_mem.value = msg.tokens[i].0.clone();
        let ghost before = out@.fields;
        out.fields.push(msg_mem);
        assert(msg.tokens.deep_view()[i as int] == (
            msg.tokens@[i as int].0@,
            msg.tokens@[i as int].1@,
        ));
        assert(out@.fields =~= before.push(msg_mem@));
        assert(out@.fields =~= fields_of(msg.tokens.deep_view()).take(i + 1));
        i = i + 1;
    }
    assert(fields_of(msg.tokens.deep_view()).take(i as int) =~= fields_of(
        msg.tokens.deep_view(),
    ));
    out
}

/// The kind of a definition file.
pub enum MsgType {
    MSG,
}

/// What a file's name tells: the message name and whether it is a definition file.
pub struct RosMsgFileMetaData {
    pub name: String,
    pub file_type: Option<MsgType>,
}

impl RosMsgFileMetaData {
    pub fn default() -> (r: Self)
        ensures
            r.name@.len() == 0,
            r.file_type is None,
    {
        Self { file_type: None, name: String::new() }
    }
}

/// Parses definition texts into messages.
pub struct MsgParser;

impl MsgParser {
    pub fn default() -> (r: Self) {
        Self
    }

    /// The message that a non-empty definition text declares, named after its file.
    pub fn parse(&self, data: RosMsgFileMetaData, source: String) -> (r: Msg)
        requires
            source@.len() > 0,
        ensures
            r@ == msg_of_source(data.name@, source@),
            r.constants@.len() == 0,
    {
        match tokenize_source(data.name, source) {
            Some(msg) => generate_data_model(msg),
            None => {
                // a non-empty text always has content
                assert(false);
                Msg::default()
            },
        }
    }
}

/// The position of the last `.` among the first `n` characters, or -1.
pub open spec fn last_dot_before(s: Seq<char>, n: int) -> int
    decreases n,
{
    if n <= 0 || n > s.len() {
        -1
    } else if s[n - 1] == '.' {
        n - 1
    } else {
        last_dot_before(s, n - 1)
    }
}

/// Whether a file name has an extension: a `.` that is not its first character.
pub open spec fn has_extension(file_name: Seq<char>) -> bool {
    last_dot_before(file_name, file_name.len() as int) > 0
}

/// A file name without its extension.
pub open spec fn file_stem(file_name: Seq<char>) -> Seq<char> {
    if has_extension(file_name) {
        file_name.take(last_dot_before(file_name, file_name.len() as int))
    } else {
        file_name
    }
}

/// Whether a file name marks a definition file: its extension is `msg`.
pub open spec fn is_definition_file(file_name: Seq<char>) -> bool {
    has_extension(file_name) && file_name.skip(
        last_dot_before(file_name, file_name.len() as int) + 1,
    ) == "msg"@
}

pub proof fn lemma_last_dot_bounds(s: Seq<char>, n: int)
    requires
        0 <= n <= s.len(),
    ensures
        -1 <= last_dot_before(s, n) < n,
        last_dot_before(s, n) >= 0 ==> s[last_dot_before(s, n)] == '.',
    decreases n,
{
    if n > 0 && s[n - 1] != '.' {
        lemma_last_dot_bounds(s, n - 1);
    }
}

/// The metadata of a file, from its name: the name without extension, and whether the
/// file is a definition file.
pub fn get_metadata(file_name: &str) -> (r: RosMsgFileMetaData)
    ensures
        r.name@ == file_stem(file_name@),
        r.file_type is Some <==> is_definition_file(file_name@),
{
    let chars = char_seq(file_name);
    let len = chars.len();
    let mut n: usize = len;
    while n > 0 && chars[n - 1] != '.'
        invariant
            n <= len == chars@.len(),
            last_dot_before(chars@, n as int) == last_dot_before(chars@, len as int),
        decreases n,
    {
        n = n - 1;
    }
    let mut data = RosMsgFileMetaData::default();
    if n > 1 {
        let dot = n - 1;
        assert(last_dot_before(chars@, len as int) == dot);
        data.name = string_of_range(&chars, 0, dot);
        assert(chars@.subrange(0, dot as int) =~= chars@.take(dot as int));
        if crate::common::range_is(&chars, dot + 1, len, "msg") {
            data.file_type = Some(MsgType::MSG);
        }
        assert(chars@.subrange(dot + 1, len as int) =~= chars@.skip(dot + 1));
    } else {
        data.name = string_of_range(&chars, 0, len);
        assert(chars@.subrange(0, len as int) =~= chars@);
    }
    data
}

} // verus!
