use vstd::prelude::*;

verus! {

/// Why a generation run stops without output.
#[derive(Debug, Clone, Copy, PartialEq, Eq, Structural)]
pub enum MsgErrorCode {
    /// A message to be emitted has an empty name.
    ModelDefMissingName,
    /// A definition file holds no text at all.
    EmptyDefinition,
}

/// The tokens of one definition file: its title and its `(type, name)` pairs in order.
#[derive(Debug, PartialEq)]
pub struct MsgDTO {
    pub title: String,
    pub tokens: Vec<(String, String)>,
}

impl MsgDTO {
    pub fn default() -> (r: Self)
        ensures
            r.title@.len() == 0,
            r.tokens@.len() == 0,
    {
        Self { title: String::new(), tokens: Vec::new() }
    }
}

/// One declared member of a message: its name and its raw schema type.
#[derive(Debug, PartialEq, Clone)]
pub struct Field {
    pub name: String,
    pub value: String,
}

/// The mathematical content of a `Field`.
pub struct FieldView {
    pub name: Seq<char>,
    pub value: Seq<char>,
}

impl View for Field {
    type V = FieldView;

    open spec fn view(&self) -> FieldView {
        FieldView { name: self.name@, value: self.value@ }
    }
}

impl Field {
    pub fn default() -> (r: Self)
        ensures
            r@ == (FieldView { name: seq![], value: seq![] }),
    {
        Self { name: String::new(), value: String::new() }
    }
}

/// A named constant of a message; constants carry no data in this model.
#[derive(Debug, PartialEq, Clone)]
pub struct Constant {}

impl Constant {
    pub fn default() -> (r: Self) {
        Self {  }
    }
}

/// One message: its name and its fields in declaration order.
#[derive(Debug, PartialEq, Clone)]
pub struct Msg {
    pub name: String,
    pub fields: Vec<Field>,
    pub constants: Vec<Constant>,
}

/// The mathematical content of a `Msg`.
pub struct MsgView {
    pub name: Seq<char>,
    pub fields: Seq<FieldView>,
}

impl View for Msg {
    type V = MsgView;

    open spec fn view(&self) -> MsgView {
        MsgView { name: self.name@, fields: self.fields@.map_values(|f: Field| f@) }
    }
}

impl Msg {
    pub fn default() -> (r: Self)
        ensures
            r@ == (MsgView { name: seq![], fields: seq![] }),
            r.constants@.len() == 0,
    {
        let r = Self { name: String::new(), fields: Vec::new(), constants: Vec::new() };
        assert(r@.fields =~= seq![]);
        r
    }
}

/// A package: a named node owning its child packages and its messages, in order.
pub struct Package {
    pub name: String,
    pub packages: Vec<Package>,
    pub messages: Vec<Msg>,
}

/// The mathematical content of a `Package`: a finite tree.
pub struct PackageView {
    pub name: Seq<char>,
    pub packages: Seq<PackageView>,
    pub messages: Seq<MsgView>,
}

pub open spec fn package_view(p: Package) -> PackageView
    decreases p,
{
    PackageView {
        name: p.name@,
        packages: Seq::new(
            p.packages.len() as nat,
            |i: int|
                if 0 <= i < p.packages.len() {
                    package_view(p.packages[i])
                } else {
                    PackageView { name: seq![], packages: seq![], messages: seq![] }
                },
        ),
        messages: p.messages@.map_values(|m: Msg| m@),
    }
}

impl View for Package {
    type V = PackageView;

    open spec fn view(&self) -> PackageView {
        package_view(*self)
    }
}

/// The header record added to the root package before emission.
pub open spec fn header_msg() -> MsgView {
    MsgView {
        name: "Header"@,
        fields: seq![
            FieldView { name: "time_stamp"@, value: "time"@ },
            FieldView { name: "frame_id"@, value: "string"@ },
        ],
    }
}

impl Package {
    pub fn default() -> (r: Self)
        ensures
            r@ == (PackageView { name: seq![], packages: seq![], messages: seq![] }),
    {
        let r = Self { name: String::new(), packages: Vec::new(), messages: Vec::new() };
        assert(r@.packages =~= seq![]);
        assert(r@.messages =~= seq![]);
        r
    }

    /// The header message: a point in time and a frame identifier.
    pub fn build_default_message() -> (r: Msg)
        ensures
            r@ == header_msg(),
            r.constants@.len() == 0,
    {
        let mut header = Msg::default();
        assert(header.fields@.len() == header@.fields.len());
        header.name = String::from_str("Header");

        let mut timestamp_field = Field::default();
        timestamp_field.name = String::from_str("time_stamp");
        timestamp_field.value = String::from_str("time");
        header.fields.push(timestamp_field);

        let mut frame_id_field = Field::default();
        frame_id_field.name = String::from_str("frame_id");
        frame_id_field.value = String::from_str("string");
        header.fields.push(frame_id_field);

        assert(header@.fields =~= header_msg().fields);
        header
    }
}

} // verus!
