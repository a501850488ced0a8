use vstd::prelude::*;

use crate::artifacts::{MsgView, Package, PackageView};
use crate::common::{concat, lemma_concat_all_empty, spaces};
use crate::msg_formatter::{msg_block, msg_to_struct};
use crate::rust_artifacts::{
    module_has_elements, module_text, some_submodule_has_elements, struct_text, struct_texts,
    submodule_texts, Module,
};

verus! {

/// Whether a package holds a message, itself or in any descendant package.
pub open spec fn package_has_content(p: PackageView) -> bool
    decreases p, 1nat, 0int,
{
    p.messages.len() > 0 || some_child_has_content(p, p.packages.len() as int)
}

/// Whether one of the first `n` child packages of `p` holds a message at any depth.
pub open spec fn some_child_has_content(p: PackageView, n: int) -> bool
    decreases p, 0nat, n,
{
    if n <= 0 || n > p.packages.len() {
        false
    } else {
        some_child_has_content(p, n - 1) || package_has_content(p.packages[n - 1])
    }
}

/// The struct blocks of a package's messages, each followed by a line break.
pub open spec fn message_blocks(p: PackageView) -> Seq<Seq<char>> {
    p.messages.map_values(|m: MsgView| msg_block(m, 0) + "\n"@)
}

/// The emitted texts of a package's children, in order.
pub open spec fn child_texts(p: PackageView) -> Seq<Seq<char>>
    decreases p, 0nat, 0int,
{
    Seq::new(
        p.packages.len() as nat,
        |j: int|
            if 0 <= j < p.packages.len() {
                emit_package(p.packages[j])
            } else {
                seq![]
            },
    )
}

/// The source text of a package tree: a module wrapper around the package's struct
/// blocks and its children's texts; nothing at all for a package that holds no message
/// at any depth.
pub open spec fn emit_package(p: PackageView) -> Seq<char>
    decreases p, 1nat, 0int,
{
    if package_has_content(p) {
        "pub mod "@ + p.name + " {\n"@ + concat(message_blocks(p)) + concat(child_texts(p))
            + "}\n"@
    } else {
        seq![]
    }
}

/// What ties a module built from a package to that package: the same pruning
/// decision and the same text.
pub open spec fn module_matches(m: Module, p: PackageView) -> bool {
    &&& module_has_elements(m) == package_has_content(p)
    &&& module_text(m) == emit_package(p)
}

/// A package tree that holds no message at any depth emits nothing at all.
pub proof fn lemma_no_messages_emits_nothing(p: PackageView)
    requires
        !package_has_content(p),
    ensures
        emit_package(p) == Seq::<char>::empty(),
{
}

/// A package with exactly one message, whose child packages hold no message at any
/// depth, emits exactly one module wrapper around exactly one struct block: the empty
/// children leave no text.
pub proof fn lemma_single_message_package(p: PackageView)
    requires
        p.messages.len() == 1,
        forall|j: int| 0 <= j < p.packages.len() ==> !package_has_content(#[trigger] p.packages[j]),
    ensures
        emit_package(p) == "pub mod "@ + p.name + " {\n"@ + msg_block(p.messages[0], 0) + "\n"@
            + "}\n"@,
{
    let blocks = message_blocks(p);
    assert(blocks.drop_last() =~= Seq::<Seq<char>>::empty());
    assert(concat(blocks.drop_last()) =~= Seq::<char>::empty());
    assert(blocks.last() == msg_block(p.messages[0], 0) + "\n"@);
    assert(concat(blocks) =~= msg_block(p.messages[0], 0) + "\n"@);
    assert forall|j: int| 0 <= j < child_texts(p).len() implies #[trigger] child_texts(p)[j].len()
        == 0 by {
        assert(!package_has_content(p.packages[j]));
    }
    lemma_concat_all_empty(child_texts(p));
    assert(emit_package(p) =~= "pub mod "@ + p.name + " {\n"@ + msg_block(p.messages[0], 0)
        + "\n"@ + "}\n"@);
}

proof fn lemma_some_child_matches(m: Module, p: PackageView, n: int)
    requires
        0 <= n <= m.modules.len(),
        m.modules.len() == p.packages.len(),
        forall|k: int|
            0 <= k < m.modules.len() ==> module_matches(#[trigger] m.modules[k], p.packages[k]),
    ensures
        some_submodule_has_elements(m, n) == some_child_has_content(p, n),
    decreases n,
{
    if n > 0 {
        lemma_some_child_matches(m, p, n - 1);
        assert(module_matches(m.modules[n - 1], p.packages[n - 1]));
    }
}

/// Builds the module tree of a package: one struct per message, one submodule per child.
pub fn package_to_module(package: &Package) -> (r: Module)
    ensures
        r.name@ == package.name@,
        r.format_params.width() == 0,
        r.structs@.len() == package.messages@.len(),
        r.modules@.len() == package.packages@.len(),
        forall|k: int|
            0 <= k < r.structs@.len() ==> struct_text(#[trigger] r.structs@[k]) == msg_block(
                package@.messages[k],
                0,
            ),
        forall|k: int|
            0 <= k < r.modules@.len() ==> module_matches(
                #[trigger] r.modules@[k],
                package@.packages[k],
            ),
        module_matches(r, package@),
    decreases package,
{
    let mut module = Module::default();
    module.name = package.name.clone();
    let ghost p = package@;
    let mut i: usize = 0;
    while i < package.messages.len()
        invariant
            i <= package.messages@.len(),
            p == package@,
            module.name@ == package.name@,
            module.format_params.width() == 0,
            module.modules@.len() == 0,
            module.structs@.len() == i,
            forall|k: int|
                0 <= k < i ==> struct_text(#[trigger] module.structs@[k]) == msg_block(
                    p.messages[k],
                    0,
                ),
        decreases package.messages@.len() - i,
    {
        let s = msg_to_struct(&package.messages[i], 0);
        module.structs.push(s);
        i = i + 1;
    }
    let mut j: usize = 0;
    while j < package.packages.len()
        invariant
            j <= package.packages@.len(),
            p == package@,
            p.packages.len() == package.packages@.len(),
            module.name@ == package.name@,
            module.format_params.width() == 0,
            module.structs@.len() == package.messages@.len(),
            forall|k: int|
                0 <= k < module.structs@.len() ==> struct_text(#[trigger] module.structs@[k])
                    == msg_block(p.messages[k], 0),
            module.modules@.len() == j,
            forall|k: int|
                0 <= k < j ==> module_matches(#[trigger] module.modules@[k], p.packages[k]),
        decreases package.packages@.len() - j,
    {
        let child = package_to_module(&package.packages[j]);
        assert(p.packages[j as int] == package.packages@[j as int]@);
        module.modules.push(child);
        j = j + 1;
    }
    proof {
        lemma_some_child_matches(module, p, j as int);
        assert(struct_texts(module) =~= message_blocks(p));
        assert forall|k: int| 0 <= k < module.modules.len() implies submodule_texts(module)[k]
            == child_texts(p)[k] by {
            assert(module_matches(module.modules[k], p.packages[k]));
            assert(spaces(0) + module_text(module.modules[k]) =~= module_text(module.modules[k]));
        }
        assert(submodule_texts(module) =~= child_texts(p));
        assert(spaces(0) =~= Seq::<char>::empty());
        if module_has_elements(module) {
            assert(module_text(module) =~= emit_package(p));
        }
    }
    module
}

} // verus!
