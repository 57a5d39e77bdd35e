use vstd::prelude::*;

use crate::document::{entry, list_of, take_entry, take_text, text_of, without, Node};
use crate::error::UpdateError;

verus! {

/// One resolved package of the upstream lock data.
pub struct CargoLockPackage {
    pub name: String,
    pub version: String,
}

/// The upstream lock data: resolved packages with their versions.
pub struct CargoLock {
    pub package: Vec<CargoLockPackage>,
}

impl View for CargoLock {
    type V = Seq<(Seq<char>, Seq<char>)>;

    open spec fn view(&self) -> Seq<(Seq<char>, Seq<char>)> {
        self.package@.map_values(|p: CargoLockPackage| (p.name@, p.version@))
    }
}

/// The name and version that a package node holds.
pub open spec fn lock_package_of(n: Node) -> Option<(Seq<char>, Seq<char>)> {
    match n {
        Node::Table(t) => match (
            text_of(entry(t@, "name"@)),
            text_of(entry(without(t@, "name"@), "version"@)),
        ) {
            (Some(name), Some(version)) => Some((name, version)),
            _ => None,
        },
        _ => None,
    }
}

/// The packages that a list of package nodes holds, in order; None where one of
/// them lacks a name or a version.
pub open spec fn parse_lock_packages(items: Seq<Node>) -> Option<Seq<(Seq<char>, Seq<char>)>>
    decreases items.len(),
{
    if items.len() == 0 {
        Some(Seq::empty())
    } else {
        match (parse_lock_packages(items.drop_last()), lock_package_of(items.last())) {
            (Some(ps), Some(p)) => Some(ps.push(p)),
            _ => None,
        }
    }
}

/// The packages that a lock document lists under `package`.
pub open spec fn parse_lock(t: Seq<(String, Node)>) -> Option<Seq<(Seq<char>, Seq<char>)>> {
    match list_of(entry(t, "package"@)) {
        Some(items) => parse_lock_packages(items),
        None => None,
    }
}

/// Package `i` is the first package named `name`.
pub open spec fn first_named_at(ps: Seq<(Seq<char>, Seq<char>)>, name: Seq<char>, i: int) -> bool {
    &&& 0 <= i < ps.len()
    &&& ps[i].0 == name
    &&& forall|m: int| 0 <= m < i ==> (#[trigger] ps[m]).0 != name
}

/// The version locked for the first package named `name`.
pub open spec fn locked_version(ps: Seq<(Seq<char>, Seq<char>)>, name: Seq<char>) -> Option<Seq<char>> {
    if exists|i: int| first_named_at(ps, name, i) {
        Some(ps[choose|i: int| first_named_at(ps, name, i)].1)
    } else {
        None
    }
}

/// Once a prefix of the list fails to read, the whole list does.
proof fn lemma_prefix_fails(items: Seq<Node>, k: int)
    requires
        0 <= k <= items.len(),
        parse_lock_packages(items.subrange(0, k)) is None,
    ensures
        parse_lock_packages(items) is None,
    decreases items.len() - k,
{
    if k == items.len() {
        assert(items.subrange(0, k) =~= items);
    } else {
        assert(items.subrange(0, k + 1).drop_last() =~= items.subrange(0, k));
        lemma_prefix_fails(items, k + 1);
    }
}

impl CargoLock {
    /// Reads the lock data out of its document.
    pub fn from_document(t: Vec<(String, Node)>) -> (r: Result<CargoLock, UpdateError>)
        ensures
            match r {
                Ok(l) => parse_lock(t@) == Some(l@),
                Err(e) => e == UpdateError::ManifestFormatError && parse_lock(t@) is None,
            },
    {
        let mut rest = t;
        let mut items = match take_entry(&mut rest, "package") {
            Some(Node::List(items)) => items,
            _ => return Err(UpdateError::ManifestFormatError),
        };
        let ghost all = items@;
        let n: usize = items.len();
        let mut package: Vec<CargoLockPackage> = Vec::new();
        let mut i: usize = 0;
        assert(all.subrange(0, 0) =~= Seq::<Node>::empty());
        while i < n
            invariant
                i <= n,
                n == all.len(),
                items@ == all.subrange(i as int, n as int),
                package@.len() == i,
                parse_lock(t@) == parse_lock_packages(all),
                parse_lock_packages(all.subrange(0, i as int)) == Some(
                    package@.map_values(|p: CargoLockPackage| (p.name@, p.version@)),
                ),
            decreases n - i,
        {
            let node = items.remove(0);
            assert(node == all[i as int]);
            assert(all.subrange(0, i + 1).drop_last() =~= all.subrange(0, i as int));
            assert(items@ =~= all.subrange(i + 1, n as int));
            let ghost before = package@;
            match node {
                Node::Table(mut fields) => {
                    let ghost f0 = fields@;
                    let name = take_text(&mut fields, "name");
                    let version = take_text(&mut fields, "version");
                    match (name, version) {
                        (Some(name), Some(version)) => {
                            assert(all[i as int]->Table_0@ == f0);
                            assert(lock_package_of(all[i as int]) == Some((name@, version@)));
                            package.push(CargoLockPackage { name, version });
                            assert(package@.map_values(|p: CargoLockPackage| (p.name@, p.version@))
                                =~= before.map_values(|p: CargoLockPackage| (p.name@, p.version@)).push(
                                (package@[i as int].name@, package@[i as int].version@),
                            ));
                        },
                        _ => {
                            assert(all[i as int]->Table_0@ == f0);
                            proof {
                                lemma_prefix_fails(all, i + 1);
                            }
                            return Err(UpdateError::ManifestFormatError);
                        },
                    }
                },
                _ => {
                    proof {
                        lemma_prefix_fails(all, i + 1);
                    }
                    return Err(UpdateError::ManifestFormatError);
                },
            }
            i = i + 1;
        }
        assert(all.subrange(0, n as int) =~= all);
        Ok(CargoLock { package })
    }

    /// The version locked for the package `name`; an error where the lock data
    /// has no such package.
    pub fn version_of(&self, name: &str) -> (r: Result<String, UpdateError>)
        ensures
            match r {
                Ok(v) => locked_version(self@, name@) == Some(v@),
                Err(e) => e == UpdateError::MissingLockEntryError && locked_version(self@, name@) is None,
            },
    {
        let n: usize = self.package.len();
        let mut i: usize = 0;
        while i < n
            invariant
                i <= n,
                n == self@.len(),
                forall|m: int| 0 <= m < i ==> (#[trigger] self@[m]).0 != name@,
            decreases n - i,
        {
            assert(self@[i as int] == (self.package@[i as int].name@, self.package@[i as int].version@));
            if crate::document::same_text(self.package[i].name.as_str(), name) {
                assert(first_named_at(self@, name@, i as int));
                let ghost k = choose|k: int| first_named_at(self@, name@, k);
                assert(k == i) by {
                    if k < i {
                        assert(self@[k].0 != name@);
                    }
                    if i < k {
                        assert(self@[i as int].0 != name@);
                    }
                }
                return Ok(self.package[i].version.clone());
            }
            i = i + 1;
        }
        Err(UpdateError::MissingLockEntryError)
    }
}

} // verus!
