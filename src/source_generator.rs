use vstd::prelude::*;

use crate::artifacts::{header_msg, MsgErrorCode, Package, PackageView};
use crate::common::{concat, lemma_concat_take_next};
use crate::module_formatter::{emit_package, package_to_module};
use crate::parse_msg::{file_stem, is_definition_file, lemma_last_dot_bounds};
use crate::parse_package::{
    dir_to_package, package_of_dir, package_prefix, definitions_nonempty, DirEntry, Directory,
};
use crate::rust_artifacts::Formattable;

verus! {

/// Whether every message of a package tree has a non-empty name.
pub open spec fn all_messages_named(p: PackageView) -> bool
    decreases p, 1nat, 0int,
{
    &&& forall|i: int| 0 <= i < p.messages.len() ==> #[trigger] p.messages[i].name.len() > 0
    &&& all_children_named(p, p.packages.len() as int)
}

/// Whether every message in the first `n` child packages of `p` has a non-empty name.
pub open spec fn all_children_named(p: PackageView, n: int) -> bool
    decreases p, 0nat, n,
{
    if n <= 0 || n > p.packages.len() {
        true
    } else {
        all_children_named(p, n - 1) && all_messages_named(p.packages[n - 1])
    }
}

/// A package tree with the header message added to its root.
pub open spec fn with_header(p: PackageView) -> PackageView {
    PackageView { messages: p.messages.push(header_msg()), ..p }
}

/// The source text generated from a directory tree.
pub open spec fn generated_source(d: Directory) -> Seq<char> {
    emit_package(with_header(package_of_dir(d)))
}

fn messages_named(package: &Package) -> (r: bool)
    ensures
        r == all_messages_named(package@),
    decreases package,
{
    let ghost p = package@;
    let mut i: usize = 0;
    while i < package.messages.len()
        invariant
            p == package@,
            i <= package.messages@.len(),
            forall|k: int| 0 <= k < i ==> #[trigger] p.messages[k].name.len() > 0,
        decreases package.messages@.len() - i,
    {
        if package.messages[i].name.as_str().is_empty() {
            assert(p.messages[i as int].name.len() == 0);
            return false;
        }
        i = i + 1;
    }
    let mut j: usize = 0;
    while j < package.packages.len()
        invariant
            p == package@,
            j <= package.packages@.len(),
            p.packages.len() == package.packages@.len(),
            all_children_named(p, j as int),
        decreases package.packages@.len() - j,
    {
        assert(p.packages[j as int] == package.packages@[j as int]@);
        if !messages_named(&package.packages[j]) {
            proof {
                if all_children_named(p, p.packages.len() as int) {
                    lemma_children_named_shrinks(p, j + 1, p.packages.len() as int);
                }
            }
            return false;
        }
        j = j + 1;
    }
    true
}

proof fn lemma_children_named_shrinks(p: PackageView, a: int, b: int)
    requires
        0 <= a <= b <= p.packages.len(),
        all_children_named(p, b),
    ensures
        all_children_named(p, a),
    decreases b - a,
{
    if a < b {
        lemma_children_named_shrinks(p, a, b - 1);
    }
}

proof fn lemma_children_named_same(p: PackageView, q: PackageView, n: int)
    requires
        0 <= n <= p.packages.len(),
        n <= q.packages.len(),
        forall|k: int| 0 <= k < n ==> p.packages[k] == q.packages[k],
    ensures
        all_children_named(p, n) == all_children_named(q, n),
    decreases n,
{
    if n > 0 {
        lemma_children_named_same(p, q, n - 1);
    }
}

proof fn lemma_prefix_named(d: Directory, n: int)
    requires
        0 <= n <= d.entries.len(),
    ensures
        all_messages_named(package_prefix(d, n)),
    decreases d, n,
{
    if n > 0 {
        lemma_prefix_named(d, n - 1);
        let p = package_prefix(d, n - 1);
        let q = package_prefix(d, n);
        match d.entries[n - 1] {
            DirEntry::Dir(sub) => {
                lemma_prefix_named(sub, sub.entries.len() as int);
                lemma_children_named_same(p, q, p.packages.len() as int);
                assert(q.messages == p.messages);
            },
            DirEntry::File(f) => {
                if is_definition_file(f.name@) {
                    lemma_last_dot_bounds(f.name@, f.name@.len() as int);
                    assert(q.messages.last().name == file_stem(f.name@));
                    assert(q.packages == p.packages);
                    assert forall|i: int| 0 <= i < q.messages.len() implies #[trigger] q.messages[
                        i
                    ].name.len() > 0 by {
                        if i < p.messages.len() {
                            assert(q.messages[i] == p.messages[i]);
                        }
                    }
                    lemma_children_named_same(p, q, p.packages.len() as int);
                }
            },
        }
    }
}

/// Every message of a tree built from a directory tree, header included, is named.
proof fn lemma_generated_tree_named(d: Directory)
    ensures
        all_messages_named(with_header(package_of_dir(d))),
{
    let p = package_of_dir(d);
    let q = with_header(p);
    lemma_prefix_named(d, d.entries.len() as int);
    lemma_children_named_same(p, q, p.packages.len() as int);
    reveal_strlit("Header");
    assert forall|i: int| 0 <= i < q.messages.len() implies #[trigger] q.messages[i].name.len()
        > 0 by {
        if i < p.messages.len() {
            assert(q.messages[i] == p.messages[i]);
        }
    }
}

/// The source text of a package tree; fails when a message to be emitted has no name.
pub fn generate_source(package: &Package) -> (r: Result<String, MsgErrorCode>)
    ensures
        all_messages_named(package@) ==> (r matches Ok(s) && s@ == emit_package(package@)),
        !all_messages_named(package@) ==> r == Err::<String, MsgErrorCode>(
            MsgErrorCode::ModelDefMissingName,
        ),
{
    if !messages_named(package) {
        return Err(MsgErrorCode::ModelDefMissingName);
    }
    let module = package_to_module(package);
    Ok(module.format())
}

/// The source text of the message library that a directory tree describes: its package
/// tree with the header message added to the root. Fails when a definition file is empty.
pub fn build_msg_source(root: &Directory) -> (r: Result<String, MsgErrorCode>)
    ensures
        r is Ok <==> definitions_nonempty(*root),
        r matches Ok(s) ==> s@ == generated_source(*root),
        r matches Err(e) ==> e == MsgErrorCode::EmptyDefinition,
{
    let mut package = match dir_to_package(root) {
        Ok(p) => p,
        Err(e) => {
            return Err(e);
        },
    };
    let ghost before = package@;
    package.messages.push(Package::build_default_message());
    assert(package@.packages =~= before.packages);
    assert(package@.messages =~= before.messages.push(header_msg()));
    assert(package@ == with_header(package_of_dir(*root)));
    proof {
        lemma_generated_tree_named(*root);
    }
    generate_source(&package)
}

/// The source texts of several roots, in order.
pub open spec fn generated_sources(roots: Seq<Directory>) -> Seq<Seq<char>> {
    roots.map_values(|d: Directory| generated_source(d))
}

/// Whether each definition file of each root holds some text.
pub open spec fn all_roots_nonempty(roots: Seq<Directory>) -> bool {
    forall|i: int| 0 <= i < roots.len() ==> definitions_nonempty(#[trigger] roots[i])
}

/// The source text of the message libraries of several roots: one top-level module per
/// root, in the order given. Fails when a definition file of any root is empty.
pub fn build_msg_sources(roots: &Vec<Directory>) -> (r: Result<String, MsgErrorCode>)
    ensures
        r is Ok <==> all_roots_nonempty(roots@),
        r matches Ok(s) ==> s@ == concat(generated_sources(roots@)),
        r matches Err(e) ==> e == MsgErrorCode::EmptyDefinition,
{
    let mut out = String::new();
    let mut i: usize = 0;
    while i < roots.len()
        invariant
            i <= roots@.len(),
            forall|k: int| 0 <= k < i ==> definitions_nonempty(#[trigger] roots@[k]),
            out@ == concat(generated_sources(roots@).take(i as int)),
        decreases roots@.len() - i,
    {
        match build_msg_source(&roots[i]) {
            Ok(text) => {
                out.append(text.as_str());
                proof {
                    lemma_concat_take_next(generated_sources(roots@), i as int);
                }
            },
            Err(e) => {
                return Err(e);
            },
        }
        i = i + 1;
    }
    assert(generated_sources(roots@).take(i as int) =~= generated_sources(roots@));
    Ok(out)
}

/// Generation depends on the directory tree alone: two runs over the same tree, listed
/// in the same order, produce the same text.
pub proof fn lemma_generation_is_deterministic(a: Directory, b: Directory)
    requires
        a == b,
    ensures
        definitions_nonempty(a) == definitions_nonempty(b),
        generated_source(a) == generated_source(b),
{
}

} // verus!
