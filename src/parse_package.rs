use vstd::prelude::*;

use crate::artifacts::{MsgErrorCode, Package, PackageView};
use crate::parse_msg::{
    file_stem, get_metadata, is_definition_file, msg_of_source, MsgParser, MsgType,
};

verus! {

/// A file of an input tree, with its text as read.
pub struct SourceFile {
    pub name: String,
    pub contents: String,
}

/// One entry of a directory listing.
pub enum DirEntry {
    Dir(Directory),
    File(SourceFile),
}

/// A directory of an input tree, with its entries in listing order.
pub struct Directory {
    pub name: String,
    pub entries: Vec<DirEntry>,
}

/// The package built from the first `n` entries of a directory: each subdirectory
/// becomes a child package, each definition file a message, other files nothing.
pub open spec fn package_prefix(d: Directory, n: int) -> PackageView
    decreases d, n,
{
    if n <= 0 || n > d.entries.len() {
        PackageView { name: d.name@, packages: seq![], messages: seq![] }
    } else {
        let p = package_prefix(d, n - 1);
        match d.entries[n - 1] {
            DirEntry::Dir(sub) => PackageView {
                packages: p.packages.push(package_prefix(sub, sub.entries.len() as int)),
                ..p
            },
            DirEntry::File(f) => if is_definition_file(f.name@) {
                PackageView {
                    messages: p.messages.push(msg_of_source(file_stem(f.name@), f.contents@)),
                    ..p
                }
            } else {
                p
            },
        }
    }
}

/// The package tree that a directory tree describes.
pub open spec fn package_of_dir(d: Directory) -> PackageView {
    package_prefix(d, d.entries.len() as int)
}

/// Whether each definition file among the first `n` entries of a directory, at any
/// depth, holds some text.
pub open spec fn definitions_nonempty_prefix(d: Directory, n: int) -> bool
    decreases d, n,
{
    if n <= 0 || n > d.entries.len() {
        true
    } else {
        definitions_nonempty_prefix(d, n - 1) && match d.entries[n - 1] {
            DirEntry::Dir(sub) => definitions_nonempty_prefix(sub, sub.entries.len() as int),
            DirEntry::File(f) => is_definition_file(f.name@) ==> f.contents@.len() > 0,
        }
    }
}

proof fn lemma_nonempty_prefix_shrinks(d: Directory, a: int, b: int)
    requires
        0 <= a <= b <= d.entries.len(),
        definitions_nonempty_prefix(d, b),
    ensures
        definitions_nonempty_prefix(d, a),
    decreases b - a,
{
    if a < b {
        lemma_nonempty_prefix_shrinks(d, a, b - 1);
    }
}

/// Whether each definition file of a directory tree holds some text.
pub open spec fn definitions_nonempty(d: Directory) -> bool {
    definitions_nonempty_prefix(d, d.entries.len() as int)
}

/// Builds package trees from directory trees, keeping the path of the directory at hand.
pub struct PackageGenerator {
    pub path: Vec<String>,
}

impl PackageGenerator {
    pub fn default() -> (r: Self)
        ensures
            r.path@.len() == 0,
    {
        Self { path: Vec::new() }
    }

    /// The package of a directory tree; fails when a definition file is empty.
    pub fn build_package(&mut self, dir: &Directory) -> (r: Result<Package, MsgErrorCode>)
        ensures
            final(self).path@ == old(self).path@,
            r is Ok <==> definitions_nonempty(*dir),
            r matches Ok(p) ==> p@ == package_of_dir(*dir),
            r matches Err(e) ==> e == MsgErrorCode::EmptyDefinition,
        decreases dir,
    {
        let mut package = Package::default();
        let name = dir.name.clone();
        self.path.push(name.clone());
        package.name = name;
        let ghost d = *dir;
        let mut i: usize = 0;
        while i < dir.entries.len()
            invariant
                d == *dir,
                i <= dir.entries@.len(),
                self.path@ == old(self).path@.push(dir.name),
                definitions_nonempty_prefix(d, i as int),
                package@ == package_prefix(d, i as int),
            decreases dir.entries@.len() - i,
        {
            let ghost before = package@;
            match &dir.entries[i] {
                DirEntry::Dir(sub) => {
                    match self.build_package(sub) {
                        Ok(child) => {
                            package.packages.push(child);
                            assert(package@.packages =~= before.packages.push(child@));
                        },
                        Err(e) => {
                            proof {
                                if definitions_nonempty(d) {
                                    lemma_nonempty_prefix_shrinks(d, i + 1, d.entries.len() as int);
                                }
                            }
                            self.path.pop();
                            assert(self.path@ =~= old(self).path@);
                            return Err(e);
                        },
                    }
                },
                DirEntry::File(f) => {
                    let data = get_metadata(f.name.as_str());
                    match data.file_type {
                        Some(MsgType::MSG) => {
                            if f.contents.as_str().is_empty() {
                                proof {
                                    if definitions_nonempty(d) {
                                        lemma_nonempty_prefix_shrinks(
                                            d,
                                            i + 1,
                                            d.entries.len() as int,
                                        );
                                    }
                                }
                                self.path.pop();
                                assert(self.path@ =~= old(self).path@);
                                return Err(MsgErrorCode::EmptyDefinition);
                            }
                            let msg_parser = MsgParser::default();
                            let msg = msg_parser.parse(data, f.contents.clone());
                            package.messages.push(msg);
                            assert(package@.messages =~= before.messages.push(msg@));
                        },
                        None => {},
                    }
                },
            }
            assert(package@.packages =~= package_prefix(d, i + 1).packages);
            i = i + 1;
        }
        self.path.pop();
        assert(self.path@ =~= old(self).path@);
        Ok(package)
    }
}

/// The package tree of a directory tree; fails when a definition file is empty.
pub fn dir_to_package(dir: &Directory) -> (r: Result<Package, MsgErrorCode>)
    ensures
        r is Ok <==> definitions_nonempty(*dir),
        r matches Ok(p) ==> p@ == package_of_dir(*dir),
        r matches Err(e) ==> e == MsgErrorCode::EmptyDefinition,
{
    let mut mod_gen = PackageGenerator::default();
    mod_gen.build_package(dir)
}

} // verus!
