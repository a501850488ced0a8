use vstd::prelude::*;

use crate::common::{build_padding_string, concat, lemma_concat_take_next, spaces, TAB_SIZE};

verus! {

/// A value that can be written out as source text.
pub trait Formattable {
    /// The text that `format` produces.
    spec fn text(&self) -> Seq<char>;

    fn format(&self) -> (r: String)
        ensures
            r@ == self.text(),
    ;
}

/// How far a generated item is indented.
pub struct FormatParameters {
    padding: usize,
}

impl FormatParameters {
    /// The indentation width, in spaces.
    pub closed spec fn width(&self) -> nat {
        self.padding as nat
    }

    pub fn default() -> (r: Self)
        ensures
            r.width() == 0,
    {
        Self { padding: 0 }
    }

    pub fn new(padding: usize) -> (r: Self)
        ensures
            r.width() == padding,
    {
        Self { padding }
    }

    pub fn padding(&self) -> (r: usize)
        ensures
            r == self.width(),
    {
        self.padding
    }
}

/// One member line of a generated struct.
pub struct StructMember {
    pub format: FormatParameters,
    pub _type: String,
    pub name: String,
}

impl StructMember {
    pub fn default() -> (r: Self)
        ensures
            r.format.width() == 0,
            r._type@.len() == 0,
            r.name@.len() == 0,
    {
        Self { format: FormatParameters::default(), _type: String::new(), name: String::new() }
    }
}

/// `<padding><tab>name: type,` and a line break.
pub open spec fn member_text(m: StructMember) -> Seq<char> {
    spaces(m.format.width()) + spaces(TAB_SIZE as nat) + m.name@ + ": "@ + m._type@ + ",\n"@
}

impl Formattable for StructMember {
    open spec fn text(&self) -> Seq<char> {
        member_text(*self)
    }

    fn format(&self) -> (r: String) {
        let padding = build_padding_string(self.format.padding());
        let tab_size = build_padding_string(TAB_SIZE);
        let mut r = padding;
        r.append(tab_size.as_str());
        r.append(self.name.as_str());
        r.append(": ");
        r.append(self._type.as_str());
        r.append(",\n");
        r
    }
}

/// The implementation block of a generated struct; none is generated.
pub struct StructImplementation {}

impl StructImplementation {
    pub fn default() -> (r: Self) {
        Self {  }
    }
}

impl Formattable for StructImplementation {
    open spec fn text(&self) -> Seq<char> {
        seq![]
    }

    fn format(&self) -> (r: String) {
        String::new()
    }
}

/// The derive list of a generated struct.
pub struct StructDerives {}

impl StructDerives {
    pub fn default() -> (r: Self) {
        Self {  }
    }
}

impl Formattable for StructDerives {
    open spec fn text(&self) -> Seq<char> {
        "#[derives()]"@
    }

    fn format(&self) -> (r: String) {
        String::from_str("#[derives()]")
    }
}

/// A generated struct declaration.
pub struct Struct {
    pub format_params: FormatParameters,
    pub derives: StructDerives,
    pub name: String,
    pub members: Vec<StructMember>,
    pub implementation: StructImplementation,
}

impl Struct {
    pub fn default() -> (r: Self)
        ensures
            r.format_params.width() == 0,
            r.name@.len() == 0,
            r.members@.len() == 0,
    {
        Self {
            format_params: FormatParameters::default(),
            derives: StructDerives::default(),
            name: String::new(),
            members: Vec::new(),
            implementation: StructImplementation::default(),
        }
    }
}

/// The texts of a struct's members, in order.
pub open spec fn member_texts(s: Struct) -> Seq<Seq<char>> {
    s.members@.map_values(|m: StructMember| member_text(m))
}

/// `pub struct Name {`, one line per member, and the closing brace (no line break after it).
pub open spec fn struct_text(s: Struct) -> Seq<char> {
    spaces(s.format_params.width()) + "pub struct "@ + s.name@ + " {\n"@ + concat(member_texts(s))
        + spaces(s.format_params.width()) + "}"@
}

impl Formattable for Struct {
    open spec fn text(&self) -> Seq<char> {
        struct_text(*self)
    }

    fn format(&self) -> (r: String) {
        let padding = build_padding_string(self.format_params.padding());
        let mut buf = String::new();
        buf.append(padding.as_str());
        buf.append("pub struct ");
        buf.append(self.name.as_str());
        buf.append(" {\n");
        let ghost head = buf@;
        let mut i: usize = 0;
        while i < self.members.len()
            invariant
                i <= self.members.len(),
                buf@ == head + concat(member_texts(*self).take(i as int)),
            decreases self.members.len() - i,
        {
            let line = self.members[i].format();
            buf.append(line.as_str());
            proof {
                lemma_concat_take_next(member_texts(*self), i as int);
            }
            i = i + 1;
        }
        assert(member_texts(*self).take(i as int) =~= member_texts(*self));
        buf.append(padding.as_str());
        buf.append("}");
        buf
    }
}

/// A generated module: its structs, then its non-empty submodules.
pub struct Module {
    pub format_params: FormatParameters,
    pub name: String,
    pub dependencies: Vec<String>,
    pub functions: Vec<Struct>,
    pub modules: Vec<Module>,
    pub structs: Vec<Struct>,
}

/// Whether a module holds a struct, itself or in any submodule at any depth.
pub open spec fn module_has_elements(m: Module) -> bool
    decreases m, 1nat, 0int,
{
    m.structs.len() > 0 || some_submodule_has_elements(m, m.modules.len() as int)
}

/// Whether one of the first `n` submodules of `m` holds a struct at any depth.
pub open spec fn some_submodule_has_elements(m: Module, n: int) -> bool
    decreases m, 0nat, n,
{
    if n <= 0 || n > m.modules.len() {
        false
    } else {
        some_submodule_has_elements(m, n - 1) || module_has_elements(m.modules[n - 1])
    }
}

pub proof fn lemma_some_submodule_grows(m: Module, a: int, b: int)
    requires
        0 <= a <= b <= m.modules.len(),
        some_submodule_has_elements(m, a),
    ensures
        some_submodule_has_elements(m, b),
    decreases b - a,
{
    if a < b {
        lemma_some_submodule_grows(m, a, b - 1);
    }
}

/// The texts of a module's structs, each followed by a line break.
pub open spec fn struct_texts(m: Module) -> Seq<Seq<char>> {
    m.structs@.map_values(|s: Struct| struct_text(s) + "\n"@)
}

/// The texts of a module's submodules: the padded text of each one that holds a
/// struct, nothing for the others.
pub open spec fn submodule_texts(m: Module) -> Seq<Seq<char>>
    decreases m, 0nat, 0int,
{
    Seq::new(
        m.modules.len() as nat,
        |j: int|
            if 0 <= j < m.modules.len() && module_has_elements(m.modules[j]) {
                spaces(m.format_params.width()) + module_text(m.modules[j])
            } else {
                seq![]
            },
    )
}

/// The text of a module, or nothing when no struct is found in it at any depth.
pub open spec fn module_text(m: Module) -> Seq<char>
    decreases m, 1nat, 0int,
{
    if module_has_elements(m) {
        spaces(m.format_params.width()) + "pub mod "@ + m.name@ + " {\n"@ + concat(struct_texts(m))
            + concat(submodule_texts(m)) + spaces(m.format_params.width()) + "}\n"@
    } else {
        seq![]
    }
}

impl Module {
    pub fn default() -> (r: Self)
        ensures
            r.format_params.width() == 0,
            r.name@.len() == 0,
            r.dependencies@.len() == 0,
            r.functions@.len() == 0,
            r.modules@.len() == 0,
            r.structs@.len() == 0,
    {
        Self {
            format_params: FormatParameters::default(),
            name: String::new(),
            dependencies: Vec::new(),
            functions: Vec::new(),
            modules: Vec::new(),
            structs: Vec::new(),
        }
    }

    /// Whether this module holds a struct, itself or in any submodule.
    pub fn has_elements(&self) -> (r: bool)
        ensures
            r == module_has_elements(*self),
        decreases *self,
    {
        if self.structs.len() > 0 {
            return true;
        }
        let mut j: usize = 0;
        while j < self.modules.len()
            invariant
                j <= self.modules.len(),
                !some_submodule_has_elements(*self, j as int),
            decreases self.modules.len() - j,
        {
            if self.modules[j].has_elements() {
                proof {
                    lemma_some_submodule_grows(*self, j + 1, self.modules.len() as int);
                }
                return true;
            }
            j = j + 1;
        }
        false
    }

    /// The module as source text; empty when it holds no struct at any depth.
    pub fn format_text(&self) -> (r: String)
        ensures
            r@ == module_text(*self),
        decreases *self,
    {
        if !self.has_elements() {
            return String::new();
        }
        let padding = build_padding_string(self.format_params.padding());
        let mut source = String::new();
        source.append(padding.as_str());
        source.append("pub mod ");
        source.append(self.name.as_str());
        source.append(" {\n");
        let ghost head = source@;
        let mut i: usize = 0;
        while i < self.structs.len()
            invariant
                i <= self.structs.len(),
                source@ == head + concat(struct_texts(*self).take(i as int)),
            decreases self.structs.len() - i,
        {
            let block = self.structs[i].format();
            source.append(block.as_str());
            source.append("\n");
            proof {
                lemma_concat_take_next(struct_texts(*self), i as int);
            }
            i = i + 1;
        }
        assert(struct_texts(*self).take(i as int) =~= struct_texts(*self));
        let ghost mid = source@;
        let mut j: usize = 0;
        while j < self.modules.len()
            invariant
                j <= self.modules.len(),
                padding@ == spaces(self.format_params.width()),
                source@ == mid + concat(submodule_texts(*self).take(j as int)),
            decreases self.modules.len() - j,
        {
            if self.modules[j].has_elements() {
                let inner = self.modules[j].format_text();
                source.append(padding.as_str());
                source.append(inner.as_str());
            }
            proof {
                lemma_concat_take_next(submodule_texts(*self), j as int);
            }
            j = j + 1;
        }
        assert(submodule_texts(*self).take(j as int) =~= submodule_texts(*self));
        source.append(padding.as_str());
        source.append("}\n");
        source
    }
}

impl Formattable for Module {
    open spec fn text(&self) -> Seq<char> {
        module_text(*self)
    }

    fn format(&self) -> (r: String) {
        self.format_text()
    }
}

} // verus!
