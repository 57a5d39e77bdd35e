use vstd::prelude::*;
use vstd::string::*;

use crate::document::{
    entry, lemma_entry_front, table_of, take_table, take_text, text_of, without, Node,
};
use crate::error::UpdateError;
use crate::lock::{locked_version, CargoLock};

verus! {

/// A dependency fetched from git at a pinned revision, with the entries of its
/// table that the update does not read.
pub struct AzaleaDependency {
    pub git: String,
    pub rev: String,
    pub others: Vec<(String, Node)>,
}

/// The dependencies table of the downstream manifest: the two sibling pins on the
/// upstream project, the two pins copied from its lock data, and the rest.
pub struct BotDependencies {
    pub azalea_protocol: AzaleaDependency,
    pub azalea_client: AzaleaDependency,
    pub anyhow: String,
    pub tokio: String,
    pub others: Vec<(String, Node)>,
}

/// The `package.metadata` table: the version label derived from upstream, and the rest.
pub struct BotMetadata {
    pub mc_version: String,
    pub others: Vec<(String, Node)>,
}

/// The `package` table: its metadata table, and the rest.
pub struct BotPackageInfo {
    pub metadata: BotMetadata,
    pub others: Vec<(String, Node)>,
}

/// The downstream manifest: the fields the update reads and writes, and every
/// other top-level entry, held unread so that writing it back loses nothing.
pub struct BotCargoToml {
    pub dependencies: BotDependencies,
    pub package: BotPackageInfo,
    pub others: Vec<(String, Node)>,
}

pub struct DependencyModel {
    pub git: Seq<char>,
    pub rev: Seq<char>,
    pub others: Seq<(String, Node)>,
}

pub struct DependenciesModel {
    pub azalea_protocol: DependencyModel,
    pub azalea_client: DependencyModel,
    pub anyhow: Seq<char>,
    pub tokio: Seq<char>,
    pub others: Seq<(String, Node)>,
}

pub struct MetadataModel {
    pub mc_version: Seq<char>,
    pub others: Seq<(String, Node)>,
}

pub struct PackageModel {
    pub metadata: MetadataModel,
    pub others: Seq<(String, Node)>,
}

pub struct ManifestModel {
    pub dependencies: DependenciesModel,
    pub package: PackageModel,
    pub others: Seq<(String, Node)>,
}

impl View for AzaleaDependency {
    type V = DependencyModel;

    open spec fn view(&self) -> DependencyModel {
        DependencyModel { git: self.git@, rev: self.rev@, others: self.others@ }
    }
}

impl View for BotDependencies {
    type V = DependenciesModel;

    open spec fn view(&self) -> DependenciesModel {
        DependenciesModel {
            azalea_protocol: self.azalea_protocol@,
            azalea_client: self.azalea_client@,
            anyhow: self.anyhow@,
            tokio: self.tokio@,
            others: self.others@,
        }
    }
}

impl View for BotMetadata {
    type V = MetadataModel;

    open spec fn view(&self) -> MetadataModel {
        MetadataModel { mc_version: self.mc_version@, others: self.others@ }
    }
}

impl View for BotPackageInfo {
    type V = PackageModel;

    open spec fn view(&self) -> PackageModel {
        PackageModel { metadata: self.metadata@, others: self.others@ }
    }
}

impl View for BotCargoToml {
    type V = ManifestModel;

    open spec fn view(&self) -> ManifestModel {
        ManifestModel {
            dependencies: self.dependencies@,
            package: self.package@,
            others: self.others@,
        }
    }
}

// Reading: each known key is taken out of its table in turn; what is left is the
// table's unread remainder.

pub open spec fn parse_dependency(t: Seq<(String, Node)>) -> Option<DependencyModel> {
    let t1 = without(t, "git"@);
    match (text_of(entry(t, "git"@)), text_of(entry(t1, "rev"@))) {
        (Some(git), Some(rev)) => Some(DependencyModel { git, rev, others: without(t1, "rev"@) }),
        _ => None,
    }
}

pub open spec fn parse_dependencies(t: Seq<(String, Node)>) -> Option<DependenciesModel> {
    let t1 = without(t, "azalea-protocol"@);
    let t2 = without(t1, "azalea-client"@);
    let t3 = without(t2, "anyhow"@);
    match (
        table_of(entry(t, "azalea-protocol"@)),
        table_of(entry(t1, "azalea-client"@)),
        text_of(entry(t2, "anyhow"@)),
        text_of(entry(t3, "tokio"@)),
    ) {
        (Some(p), Some(c), Some(anyhow), Some(tokio)) => match (
            parse_dependency(p),
            parse_dependency(c),
        ) {
            (Some(azalea_protocol), Some(azalea_client)) => Some(
                DependenciesModel {
                    azalea_protocol,
                    azalea_client,
                    anyhow,
                    tokio,
                    others: without(t3, "tokio"@),
                },
            ),
            _ => None,
        },
        _ => None,
    }
}

pub open spec fn parse_metadata(t: Seq<(String, Node)>) -> Option<MetadataModel> {
    match text_of(entry(t, "mc_version"@)) {
        Some(mc_version) => Some(MetadataModel { mc_version, others: without(t, "mc_version"@) }),
        None => None,
    }
}

pub open spec fn parse_package(t: Seq<(String, Node)>) -> Option<PackageModel> {
    match table_of(entry(t, "metadata"@)) {
        Some(m) => match parse_metadata(m) {
            Some(metadata) => Some(PackageModel { metadata, others: without(t, "metadata"@) }),
            None => None,
        },
        None => None,
    }
}

/// The manifest that a document holds, or None where a known field is missing
/// or has the wrong shape.
pub open spec fn parse_manifest(t: Seq<(String, Node)>) -> Option<ManifestModel> {
    let t1 = without(t, "dependencies"@);
    match (table_of(entry(t, "dependencies"@)), table_of(entry(t1, "package"@))) {
        (Some(d), Some(p)) => match (parse_dependencies(d), parse_package(p)) {
            (Some(dependencies), Some(package)) => Some(
                ManifestModel { dependencies, package, others: without(t1, "package"@) },
            ),
            _ => None,
        },
        _ => None,
    }
}

// Writing: the known entries first, in a fixed order, then the remainder as it was.

pub open spec fn text_entry(e: (String, Node), k: Seq<char>, v: Seq<char>) -> bool {
    e.0@ == k && text_of(Some(e.1)) == Some(v)
}

pub open spec fn dependency_layout(t: Seq<(String, Node)>, m: DependencyModel) -> bool {
    &&& t.len() == m.others.len() + 2
    &&& text_entry(t[0], "git"@, m.git)
    &&& text_entry(t[1], "rev"@, m.rev)
    &&& t.subrange(2, t.len() as int) == m.others
}

pub open spec fn dependencies_layout(t: Seq<(String, Node)>, m: DependenciesModel) -> bool {
    &&& t.len() == m.others.len() + 4
    &&& t[0].0@ == "azalea-protocol"@
    &&& t[0].1 is Table
    &&& dependency_layout(t[0].1->Table_0@, m.azalea_protocol)
    &&& t[1].0@ == "azalea-client"@
    &&& t[1].1 is Table
    &&& dependency_layout(t[1].1->Table_0@, m.azalea_client)
    &&& text_entry(t[2], "anyhow"@, m.anyhow)
    &&& text_entry(t[3], "tokio"@, m.tokio)
    &&& t.subrange(4, t.len() as int) == m.others
}

pub open spec fn metadata_layout(t: Seq<(String, Node)>, m: MetadataModel) -> bool {
    &&& t.len() == m.others.len() + 1
    &&& text_entry(t[0], "mc_version"@, m.mc_version)
    &&& t.subrange(1, t.len() as int) == m.others
}

pub open spec fn package_layout(t: Seq<(String, Node)>, m: PackageModel) -> bool {
    &&& t.len() == m.others.len() + 1
    &&& t[0].0@ == "metadata"@
    &&& t[0].1 is Table
    &&& metadata_layout(t[0].1->Table_0@, m.metadata)
    &&& t.subrange(1, t.len() as int) == m.others
}

/// `t` is the document written for manifest `m`.
pub open spec fn manifest_layout(t: Seq<(String, Node)>, m: ManifestModel) -> bool {
    &&& t.len() == m.others.len() + 2
    &&& t[0].0@ == "dependencies"@
    &&& t[0].1 is Table
    &&& dependencies_layout(t[0].1->Table_0@, m.dependencies)
    &&& t[1].0@ == "package"@
    &&& t[1].1 is Table
    &&& package_layout(t[1].1->Table_0@, m.package)
    &&& t.subrange(2, t.len() as int) == m.others
}

/// Taking the front entry out of a table leaves the rest of it.
proof fn lemma_rest_after_front(t: Seq<(String, Node)>, n: int)
    requires
        0 < n <= t.len(),
    ensures
        t.subrange(1, t.len() as int).subrange(n - 1, t.len() - 1) == t.subrange(n, t.len() as int),
{
    assert(t.subrange(1, t.len() as int).subrange(n - 1, t.len() - 1) =~= t.subrange(
        n,
        t.len() as int,
    ));
}

pub proof fn lemma_dependency_round_trip(t: Seq<(String, Node)>, m: DependencyModel)
    requires
        dependency_layout(t, m),
    ensures
        parse_dependency(t) == Some(m),
{
    lemma_entry_front(t, "git"@);
    let t1 = t.subrange(1, t.len() as int);
    lemma_entry_front(t1, "rev"@);
    lemma_rest_after_front(t, 2);
}

pub proof fn lemma_dependencies_round_trip(t: Seq<(String, Node)>, m: DependenciesModel)
    requires
        dependencies_layout(t, m),
    ensures
        parse_dependencies(t) == Some(m),
{
    lemma_dependency_round_trip(t[0].1->Table_0@, m.azalea_protocol);
    lemma_dependency_round_trip(t[1].1->Table_0@, m.azalea_client);
    lemma_entry_front(t, "azalea-protocol"@);
    let t1 = t.subrange(1, t.len() as int);
    lemma_entry_front(t1, "azalea-client"@);
    let t2 = t1.subrange(1, t1.len() as int);
    lemma_entry_front(t2, "anyhow"@);
    let t3 = t2.subrange(1, t2.len() as int);
    lemma_entry_front(t3, "tokio"@);
    assert(t3.subrange(1, t3.len() as int) =~= t.subrange(4, t.len() as int));
}

pub proof fn lemma_metadata_round_trip(t: Seq<(String, Node)>, m: MetadataModel)
    requires
        metadata_layout(t, m),
    ensures
        parse_metadata(t) == Some(m),
{
    lemma_entry_front(t, "mc_version"@);
}

pub proof fn lemma_package_round_trip(t: Seq<(String, Node)>, m: PackageModel)
    requires
        package_layout(t, m),
    ensures
        parse_package(t) == Some(m),
{
    lemma_metadata_round_trip(t[0].1->Table_0@, m.metadata);
    lemma_entry_front(t, "metadata"@);
}

/// Reading back the document written for a manifest gives that manifest: the
/// same known fields and the same unread remainder at every level.
pub proof fn lemma_layout_round_trip(t: Seq<(String, Node)>, m: ManifestModel)
    requires
        manifest_layout(t, m),
    ensures
        parse_manifest(t) == Some(m),
{
    lemma_dependencies_round_trip(t[0].1->Table_0@, m.dependencies);
    lemma_package_round_trip(t[1].1->Table_0@, m.package);
    lemma_entry_front(t, "dependencies"@);
    let t1 = t.subrange(1, t.len() as int);
    lemma_entry_front(t1, "package"@);
    lemma_rest_after_front(t, 2);
}

/// Reading a manifest, writing it out unchanged and reading the result again
/// gives the manifest first read: equal known fields and an equal remainder.
pub proof fn lemma_manifest_round_trip(d: Seq<(String, Node)>, written: Seq<(String, Node)>)
    requires
        parse_manifest(d) is Some,
        manifest_layout(written, parse_manifest(d)->Some_0),
    ensures
        parse_manifest(written) == parse_manifest(d),
{
    lemma_layout_round_trip(written, parse_manifest(d)->Some_0);
}

impl AzaleaDependency {
    /// Reads a dependency table: its `git` and `rev` texts, and the rest unread.
    pub fn from_table(t: Vec<(String, Node)>) -> (r: Result<AzaleaDependency, UpdateError>)
        ensures
            match r {
                Ok(d) => parse_dependency(t@) == Some(d@),
                Err(e) => e == UpdateError::ManifestFormatError && parse_dependency(t@) is None,
            },
    {
        let mut rest = t;
        let git = take_text(&mut rest, "git");
        let rev = take_text(&mut rest, "rev");
        match (git, rev) {
            (Some(git), Some(rev)) => Ok(AzaleaDependency { git, rev, others: rest }),
            _ => Err(UpdateError::ManifestFormatError),
        }
    }

    /// Writes the dependency table back.
    pub fn into_table(self) -> (t: Vec<(String, Node)>)
        ensures
            dependency_layout(t@, self@),
            parse_dependency(t@) == Some(self@),
    {
        let AzaleaDependency { git, rev, others } = self;
        let mut t: Vec<(String, Node)> = Vec::new();
        t.push((String::from_str("git"), Node::Text(git)));
        t.push((String::from_str("rev"), Node::Text(rev)));
        let mut rest = others;
        t.append(&mut rest);
        assert(t@.subrange(2, t@.len() as int) =~= self.others@);
        proof {
            lemma_dependency_round_trip(t@, self@);
        }
        t
    }
}

impl BotDependencies {
    /// Reads the dependencies table.
    pub fn from_table(t: Vec<(String, Node)>) -> (r: Result<BotDependencies, UpdateError>)
        ensures
            match r {
                Ok(d) => parse_dependencies(t@) == Some(d@),
                Err(e) => e == UpdateError::ManifestFormatError && parse_dependencies(t@) is None,
            },
    {
        let mut rest = t;
        let p = take_table(&mut rest, "azalea-protocol");
        let c = take_table(&mut rest, "azalea-client");
        let anyhow = take_text(&mut rest, "anyhow");
        let tokio = take_text(&mut rest, "tokio");
        match (p, c, anyhow, tokio) {
            (Some(p), Some(c), Some(anyhow), Some(tokio)) => {
                let azalea_protocol = AzaleaDependency::from_table(p)?;
                let azalea_client = AzaleaDependency::from_table(c)?;
                Ok(BotDependencies { azalea_protocol, azalea_client, anyhow, tokio, others: rest })
            },
            _ => Err(UpdateError::ManifestFormatError),
        }
    }

    /// Writes the dependencies table back.
    pub fn into_table(self) -> (t: Vec<(String, Node)>)
        ensures
            dependencies_layout(t@, self@),
            parse_dependencies(t@) == Some(self@),
    {
        let BotDependencies { azalea_protocol, azalea_client, anyhow, tokio, others } = self;
        let p = azalea_protocol.into_table();
        let c = azalea_client.into_table();
        let mut t: Vec<(String, Node)> = Vec::new();
        t.push((String::from_str("azalea-protocol"), Node::Table(p)));
        t.push((String::from_str("azalea-client"), Node::Table(c)));
        t.push((String::from_str("anyhow"), Node::Text(anyhow)));
        t.push((String::from_str("tokio"), Node::Text(tokio)));
        let mut rest = others;
        t.append(&mut rest);
        assert(t@.subrange(4, t@.len() as int) =~= self.others@);
        proof {
            lemma_dependencies_round_trip(t@, self@);
        }
        t
    }
}

impl BotMetadata {
    /// Reads the metadata table.
    pub fn from_table(t: Vec<(String, Node)>) -> (r: Result<BotMetadata, UpdateError>)
        ensures
            match r {
                Ok(m) => parse_metadata(t@) == Some(m@),
                Err(e) => e == UpdateError::ManifestFormatError && parse_metadata(t@) is None,
            },
    {
        let mut rest = t;
        match take_text(&mut rest, "mc_version") {
            Some(mc_version) => Ok(BotMetadata { mc_version, others: rest }),
            None => Err(UpdateError::ManifestFormatError),
        }
    }

    /// Writes the metadata table back.
    pub fn into_table(self) -> (t: Vec<(String, Node)>)
        ensures
            metadata_layout(t@, self@),
            parse_metadata(t@) == Some(self@),
    {
        let BotMetadata { mc_version, others } = self;
        let mut t: Vec<(String, Node)> = Vec::new();
        t.push((String::from_str("mc_version"), Node::Text(mc_version)));
        let mut rest = others;
        t.append(&mut rest);
        assert(t@.subrange(1, t@.len() as int) =~= self.others@);
        proof {
            lemma_metadata_round_trip(t@, self@);
        }
        t
    }
}

impl BotPackageInfo {
    /// Reads the package table.
    pub fn from_table(t: Vec<(String, Node)>) -> (r: Result<BotPackageInfo, UpdateError>)
        ensures
            match r {
                Ok(p) => parse_package(t@) == Some(p@),
                Err(e) => e == UpdateError::ManifestFormatError && parse_package(t@) is None,
            },
    {
        let mut rest = t;
        match take_table(&mut rest, "metadata") {
            Some(m) => {
                let metadata = BotMetadata::from_table(m)?;
                Ok(BotPackageInfo { metadata, others: rest })
            },
            None => Err(UpdateError::ManifestFormatError),
        }
    }

    /// Writes the package table back.
    pub fn into_table(self) -> (t: Vec<(String, Node)>)
        ensures
            package_layout(t@, self@),
            parse_package(t@) == Some(self@),
    {
        let BotPackageInfo { metadata, others } = self;
        let m = metadata.into_table();
        let mut t: Vec<(String, Node)> = Vec::new();
        t.push((String::from_str("metadata"), Node::Table(m)));
        let mut rest = others;
        t.append(&mut rest);
        assert(t@.subrange(1, t@.len() as int) =~= self.others@);
        proof {
            lemma_package_round_trip(t@, self@);
        }
        t
    }
}

impl BotCargoToml {
    /// Reads the manifest out of its document: the known fields, and the rest of
    /// every table unread.
    pub fn from_document(d: Vec<(String, Node)>) -> (r: Result<BotCargoToml, UpdateError>)
        ensures
            match r {
                Ok(m) => parse_manifest(d@) == Some(m@),
                Err(e) => e == UpdateError::ManifestFormatError && parse_manifest(d@) is None,
            },
    {
        let mut rest = d;
        let deps = take_table(&mut rest, "dependencies");
        let package = take_table(&mut rest, "package");
        match (deps, package) {
            (Some(deps), Some(package)) => {
                let dependencies = BotDependencies::from_table(deps)?;
                let package = BotPackageInfo::from_table(package)?;
                Ok(BotCargoToml { dependencies, package, others: rest })
            },
            _ => Err(UpdateError::ManifestFormatError),
        }
    }

    /// Writes the manifest back into a document: the known entries first, then
    /// the remainder of each table as it was read.
    pub fn into_document(self) -> (d: Vec<(String, Node)>)
        ensures
            manifest_layout(d@, self@),
            parse_manifest(d@) == Some(self@),
    {
        let BotCargoToml { dependencies, package, others } = self;
        let deps = dependencies.into_table();
        let pkg = package.into_table();
        let mut d: Vec<(String, Node)> = Vec::new();
        d.push((String::from_str("dependencies"), Node::Table(deps)));
        d.push((String::from_str("package"), Node::Table(pkg)));
        let mut rest = others;
        d.append(&mut rest);
        assert(d@.subrange(2, d@.len() as int) =~= self.others@);
        proof {
            lemma_layout_round_trip(d@, self@);
        }
        d
    }
}

// Mutations: each names the fields it changes; every other field, and every
// unread entry at every level, is left as it was.

/// `m` with both sibling pins moved to revision `rev`.
pub open spec fn with_revision(m: ManifestModel, rev: Seq<char>) -> ManifestModel {
    ManifestModel {
        dependencies: DependenciesModel {
            azalea_protocol: DependencyModel { rev, ..m.dependencies.azalea_protocol },
            azalea_client: DependencyModel { rev, ..m.dependencies.azalea_client },
            ..m.dependencies
        },
        ..m
    }
}

/// `m` with the derived version label `v`.
pub open spec fn with_mc_version(m: ManifestModel, v: Seq<char>) -> ManifestModel {
    ManifestModel {
        package: PackageModel {
            metadata: MetadataModel { mc_version: v, ..m.package.metadata },
            ..m.package
        },
        ..m
    }
}

/// `m` with the two pins copied from the lock data.
pub open spec fn with_lock_pins(m: ManifestModel, anyhow: Seq<char>, tokio: Seq<char>) -> ManifestModel {
    ManifestModel { dependencies: DependenciesModel { anyhow, tokio, ..m.dependencies }, ..m }
}

/// The manifest after a full update: pins moved to `rev`, label `v`, and the
/// lock pins `anyhow` and `tokio`.
pub open spec fn updated(
    m: ManifestModel,
    rev: Seq<char>,
    v: Seq<char>,
    anyhow: Seq<char>,
    tokio: Seq<char>,
) -> ManifestModel {
    with_mc_version(with_revision(with_lock_pins(m, anyhow, tokio), rev), v)
}

/// Moving the pin and the version label changes those fields alone: the git
/// sources, the lock pins, and every unread entry, however deeply nested, stay
/// as they were.
pub proof fn lemma_pin_keeps_rest(m: ManifestModel, rev: Seq<char>, v: Seq<char>)
    ensures
        ({
            let n = with_mc_version(with_revision(m, rev), v);
            &&& n.dependencies.azalea_protocol.rev == rev
            &&& n.dependencies.azalea_client.rev == rev
            &&& n.package.metadata.mc_version == v
            &&& n.dependencies.azalea_protocol.git == m.dependencies.azalea_protocol.git
            &&& n.dependencies.azalea_protocol.others == m.dependencies.azalea_protocol.others
            &&& n.dependencies.azalea_client.git == m.dependencies.azalea_client.git
            &&& n.dependencies.azalea_client.others == m.dependencies.azalea_client.others
            &&& n.dependencies.anyhow == m.dependencies.anyhow
            &&& n.dependencies.tokio == m.dependencies.tokio
            &&& n.dependencies.others == m.dependencies.others
            &&& n.package.metadata.others == m.package.metadata.others
            &&& n.package.others == m.package.others
            &&& n.others == m.others
        }),
{
}

impl BotCargoToml {
    /// The revision that the manifest pins: that of the protocol dependency.
    pub fn current_rev(&self) -> (r: &String)
        ensures
            r@ == self@.dependencies.azalea_protocol.rev,
    {
        &self.dependencies.azalea_protocol.rev
    }

    /// Moves both sibling pins to revision `rev` together.
    pub fn pin_revision(&mut self, rev: &str)
        ensures
            final(self)@ == with_revision(old(self)@, rev@),
    {
        self.dependencies.azalea_protocol.rev = String::from_str(rev);
        self.dependencies.azalea_client.rev = String::from_str(rev);
    }

    /// Sets the derived version label.
    pub fn set_mc_version(&mut self, v: &str)
        ensures
            final(self)@ == with_mc_version(old(self)@, v@),
    {
        self.package.metadata.mc_version = String::from_str(v);
    }

    /// Copies the versions of `anyhow` and `tokio` out of the lock data. Where
    /// either is missing it fails and leaves the manifest unchanged.
    pub fn sync_lock_pins(&mut self, lock: &CargoLock) -> (r: Result<(), UpdateError>)
        ensures
            match r {
                Ok(()) => locked_version(lock@, "anyhow"@) is Some && locked_version(
                    lock@,
                    "tokio"@,
                ) is Some && final(self)@ == with_lock_pins(
                    old(self)@,
                    locked_version(lock@, "anyhow"@)->Some_0,
                    locked_version(lock@, "tokio"@)->Some_0,
                ),
                Err(e) => e == UpdateError::MissingLockEntryError && (locked_version(
                    lock@,
                    "anyhow"@,
                ) is None || locked_version(lock@, "tokio"@) is None) && final(self)@ == old(
                    self,
                )@,
            },
    {
        let anyhow = lock.version_of("anyhow")?;
        let tokio = lock.version_of("tokio")?;
        self.dependencies.anyhow = anyhow;
        self.dependencies.tokio = tokio;
        Ok(())
    }

    /// Applies one update to the manifest: both sibling pins move to `rev`, the
    /// version label becomes `mc_version`, and the lock pins are copied from
    /// `lock`. Where the lock data lacks a pin it fails and changes nothing.
    pub fn apply_update(&mut self, rev: &str, mc_version: &str, lock: &CargoLock) -> (r: Result<
        (),
        UpdateError,
    >)
        ensures
            match r {
                Ok(()) => locked_version(lock@, "anyhow"@) is Some && locked_version(
                    lock@,
                    "tokio"@,
                ) is Some && final(self)@ == updated(
                    old(self)@,
                    rev@,
                    mc_version@,
                    locked_version(lock@, "anyhow"@)->Some_0,
                    locked_version(lock@, "tokio"@)->Some_0,
                ),
                Err(e) => e == UpdateError::MissingLockEntryError && (locked_version(
                    lock@,
                    "anyhow"@,
                ) is None || locked_version(lock@, "tokio"@) is None) && final(self)@ == old(
                    self,
                )@,
            },
    {
        self.sync_lock_pins(lock)?;
        self.pin_revision(rev);
        self.set_mc_version(mc_version);
        Ok(())
    }
}

} // verus!
