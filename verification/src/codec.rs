//! The codec between the resolver graph and the generic document model:
//! `Resolve` is encoded into a document before emission, and a parsed
//! document is decoded back into a `Resolve`.

use vstd::prelude::*;

use crate::document::{
    entries_model, find, lemma_entries_model, lemma_models_of, models_of, tbl_find, DocValue,
    ValueModel,
};
use crate::resolve::{pairs_model, Package, PackageV, Resolve, ResolveV};

verus! {

/// Why a document does not describe a resolved graph.
#[derive(Debug, Clone, Copy, PartialEq, Eq, Structural)]
pub enum DecodeError {
    /// The document as a whole is not a table.
    NotATable,
    /// The document has no `root` entry.
    MissingRoot,
    /// A package entry is not a table.
    PackageNotTable,
    /// The `package` entry is not an array.
    PackageListNotArray,
    /// A package table has no `name` entry.
    MissingName,
    /// A package's `name` entry is not a string.
    NameNotString,
    /// A package table has no `version` entry.
    MissingVersion,
    /// A package's `version` entry is not a string.
    VersionNotString,
    /// A package's `source` entry is not a string.
    SourceNotString,
    /// A package's `dependencies` entry is not an array.
    DependenciesNotArray,
    /// A dependency reference is not a string.
    DependencyNotString,
    /// The `metadata` entry is not a table.
    MetadataNotTable,
    /// A `metadata` entry's value is not a string.
    MetadataValueNotString,
}

// ---------------------------------------------------------------------------
// Encoding a graph into a document, at the model level.
// ---------------------------------------------------------------------------
/// String values for a list of dependency references.
pub open spec fn str_models(s: Seq<Seq<char>>) -> Seq<ValueModel> {
    Seq::new(s.len(), |i: int| ValueModel::Str(s[i]))
}

/// The entries of one encoded package table, in canonical order: `name`,
/// `version`, `source` (only when present), `dependencies` (always, possibly
/// empty).
pub open spec fn package_entries(p: PackageV) -> Seq<(Seq<char>, ValueModel)> {
    let named = seq![
        ("name"@, ValueModel::Str(p.name)),
        ("version"@, ValueModel::Str(p.version)),
    ];
    let sourced = match p.source {
        Option::Some(s) => named.push(("source"@, ValueModel::Str(s))),
        Option::None => named,
    };
    sourced.push(("dependencies"@, ValueModel::Arr(str_models(p.dependencies))))
}

/// The entries of an encoded metadata table.
pub open spec fn meta_entries(m: Seq<(Seq<char>, Seq<char>)>) -> Seq<(Seq<char>, ValueModel)> {
    Seq::new(m.len(), |i: int| (m[i].0, ValueModel::Str(m[i].1)))
}

/// The encoded package array.
pub open spec fn package_list_model(ps: Seq<PackageV>) -> Seq<ValueModel> {
    Seq::new(ps.len(), |i: int| ValueModel::Table(package_entries(ps[i])))
}

/// The entries of the encoded lockfile document: `root`, `package`, and
/// `metadata` only when the graph carries any.
pub open spec fn resolve_entries(r: ResolveV) -> Seq<(Seq<char>, ValueModel)> {
    let base = seq![
        ("root"@, ValueModel::Table(package_entries(r.root))),
        ("package"@, ValueModel::Arr(package_list_model(r.packages))),
    ];
    match r.metadata {
        Option::Some(m) => base.push(("metadata"@, ValueModel::Table(meta_entries(m)))),
        Option::None => base,
    }
}

/// The whole encoded lockfile document.
pub open spec fn encode_resolve_model(r: ResolveV) -> ValueModel {
    ValueModel::Table(resolve_entries(r))
}

// ---------------------------------------------------------------------------
// Decoding a document into a graph, at the model level.
// ---------------------------------------------------------------------------
/// Decodes the first `i` elements of an array as dependency references.
pub open spec fn decode_strings_upto(vs: Seq<ValueModel>, i: int) -> Result<
    Seq<Seq<char>>,
    DecodeError,
>
    decreases i,
{
    if i <= 0 {
        Ok(Seq::empty())
    } else {
        match decode_strings_upto(vs, i - 1) {
            Ok(pre) => match vs[i - 1] {
                ValueModel::Str(s) => Ok(pre.push(s)),
                _ => Err(DecodeError::DependencyNotString),
            },
            Err(e) => Err(e),
        }
    }
}

/// Decodes one package table.  `name` and `version` are required strings;
/// `source` and `dependencies` are optional, and an absent dependency list
/// means no dependencies.
pub open spec fn decode_package(v: ValueModel) -> Result<PackageV, DecodeError> {
    match v {
        ValueModel::Table(t) => match tbl_find(t, "name"@) {
            Option::Some(namev) => match namev {
                ValueModel::Str(name) => match tbl_find(t, "version"@) {
                    Option::Some(versionv) => match versionv {
                        ValueModel::Str(version) => match tbl_find(t, "source"@) {
                            Option::Some(sourcev) => match sourcev {
                                ValueModel::Str(source) => decode_package_deps(
                                    t,
                                    name,
                                    version,
                                    Option::Some(source),
                                ),
                                _ => Err(DecodeError::SourceNotString),
                            },
                            Option::None => decode_package_deps(t, name, version, Option::None),
                        },
                        _ => Err(DecodeError::VersionNotString),
                    },
                    Option::None => Err(DecodeError::MissingVersion),
                },
                _ => Err(DecodeError::NameNotString),
            },
            Option::None => Err(DecodeError::MissingName),
        },
        _ => Err(DecodeError::PackageNotTable),
    }
}

/// The dependency-list half of package decoding.
pub open spec fn decode_package_deps(
    t: Seq<(Seq<char>, ValueModel)>,
    name: Seq<char>,
    version: Seq<char>,
    source: Option<Seq<char>>,
) -> Result<PackageV, DecodeError> {
    match tbl_find(t, "dependencies"@) {
        Option::None => Ok(
            PackageV { name, version, source, dependencies: Seq::empty() },
        ),
        Option::Some(depsv) => match depsv {
            ValueModel::Arr(vs) => match decode_strings_upto(vs, vs.len() as int) {
                Ok(deps) => Ok(PackageV { name, version, source, dependencies: deps }),
                Err(e) => Err(e),
            },
            _ => Err(DecodeError::DependenciesNotArray),
        },
    }
}

/// Decodes the first `i` elements of the package array.
pub open spec fn decode_packages_upto(vs: Seq<ValueModel>, i: int) -> Result<
    Seq<PackageV>,
    DecodeError,
>
    decreases i,
{
    if i <= 0 {
        Ok(Seq::empty())
    } else {
        match decode_packages_upto(vs, i - 1) {
            Ok(pre) => match decode_package(vs[i - 1]) {
                Ok(p) => Ok(pre.push(p)),
                Err(e) => Err(e),
            },
            Err(e) => Err(e),
        }
    }
}

/// Decodes the first `i` entries of the metadata table.
pub open spec fn decode_meta_upto(t: Seq<(Seq<char>, ValueModel)>, i: int) -> Result<
    Seq<(Seq<char>, Seq<char>)>,
    DecodeError,
>
    decreases i,
{
    if i <= 0 {
        Ok(Seq::empty())
    } else {
        match decode_meta_upto(t, i - 1) {
            Ok(pre) => match t[i - 1].1 {
                ValueModel::Str(s) => Ok(pre.push((t[i - 1].0, s))),
                _ => Err(DecodeError::MetadataValueNotString),
            },
            Err(e) => Err(e),
        }
    }
}

/// Decodes a whole lockfile document.  The graph's identity is anchored to
/// the supplied source identity, never taken from the document; an absent
/// `package` entry means an empty package list.
pub open spec fn decode_resolve_model(v: ValueModel, sid: Seq<char>) -> Result<
    ResolveV,
    DecodeError,
> {
    match v {
        ValueModel::Table(t) => match tbl_find(t, "root"@) {
            Option::Some(rootv) => match decode_package(rootv) {
                Ok(root) => match decode_resolve_packages(t) {
                    Ok(packages) => match decode_resolve_meta(t) {
                        Ok(metadata) => Ok(ResolveV { root, packages, metadata, source_id: sid }),
                        Err(e) => Err(e),
                    },
                    Err(e) => Err(e),
                },
                Err(e) => Err(e),
            },
            Option::None => Err(DecodeError::MissingRoot),
        },
        _ => Err(DecodeError::NotATable),
    }
}

/// The package-array half of document decoding.
pub open spec fn decode_resolve_packages(t: Seq<(Seq<char>, ValueModel)>) -> Result<
    Seq<PackageV>,
    DecodeError,
> {
    match tbl_find(t, "package"@) {
        Option::None => Ok(Seq::empty()),
        Option::Some(pkgsv) => match pkgsv {
            ValueModel::Arr(vs) => decode_packages_upto(vs, vs.len() as int),
            _ => Err(DecodeError::PackageListNotArray),
        },
    }
}

// ---------------------------------------------------------------------------
// Executable encoding.
// ---------------------------------------------------------------------------
/// Encodes one package into a document table.
pub fn encode_package(p: &Package) -> (v: DocValue)
    ensures
        v.model() == ValueModel::Table(package_entries(p@)),
{
    let mut entries: Vec<(String, DocValue)> = Vec::new();
    entries.push(("name".to_owned(), DocValue::Str(p.name.clone())));
    entries.push(("version".to_owned(), DocValue::Str(p.version.clone())));
    match &p.source {
        Option::Some(s) => entries.push(("source".to_owned(), DocValue::Str(s.clone()))),
        Option::None => {},
    }
    let mut deps: Vec<DocValue> = Vec::new();
    let n: usize = p.dependencies.len();
    let mut i: usize = 0;
    while i < n
        invariant
            0 <= i <= n,
            n == p.dependencies.len(),
            deps@.len() == i,
            forall|j: int| 0 <= j < i ==> deps@[j] == DocValue::Str(p.dependencies@[j]),
        decreases n - i,
    {
        deps.push(DocValue::Str(p.dependencies[i].clone()));
        i += 1;
    }
    proof {
        lemma_models_of(deps@);
        assert(models_of(deps@) =~= str_models(p@.dependencies));
    }
    entries.push(("dependencies".to_owned(), DocValue::Arr(deps)));
    proof {
        lemma_entries_model(entries@);
        assert(entries_model(entries@) =~~= package_entries(p@));
    }
    DocValue::Table(entries)
}

/// Encodes a resolved graph into a lockfile document.
pub fn encode_resolve(r: &Resolve) -> (v: DocValue)
    ensures
        v.model() == encode_resolve_model(r@),
{
    let mut entries: Vec<(String, DocValue)> = Vec::new();
    entries.push(("root".to_owned(), encode_package(&r.root)));
    let mut pkgs: Vec<DocValue> = Vec::new();
    let n: usize = r.packages.len();
    let mut i: usize = 0;
    while i < n
        invariant
            0 <= i <= n,
            n == r.packages.len(),
            pkgs@.len() == i,
            forall|j: int| 0 <= j < i ==> (#[trigger] pkgs@[j]).model() == ValueModel::Table(
                package_entries(r.packages@[j]@),
            ),
        decreases n - i,
    {
        pkgs.push(encode_package(&r.packages[i]));
        i += 1;
    }
    proof {
        lemma_models_of(pkgs@);
        assert(models_of(pkgs@) =~~= package_list_model(r@.packages));
    }
    entries.push(("package".to_owned(), DocValue::Arr(pkgs)));
    match &r.metadata {
        Option::Some(m) => {
            let mut mv: Vec<(String, DocValue)> = Vec::new();
            let mn: usize = m.len();
            let mut j: usize = 0;
            while j < mn
                invariant
                    0 <= j <= mn,
                    mn == m.len(),
                    mv@.len() == j,
                    forall|k: int| 0 <= k < j ==> mv@[k] == (m@[k].0, DocValue::Str(m@[k].1)),
                decreases mn - j,
            {
                mv.push((m[j].0.clone(), DocValue::Str(m[j].1.clone())));
                j += 1;
            }
            proof {
                lemma_entries_model(mv@);
                assert(entries_model(mv@) =~~= meta_entries(pairs_model(m@)));
            }
            entries.push(("metadata".to_owned(), DocValue::Table(mv)));
        },
        Option::None => {},
    }
    proof {
        lemma_entries_model(entries@);
        assert(entries_model(entries@) =~~= resolve_entries(r@));
    }
    DocValue::Table(entries)
}

/// The metadata half of document decoding.
pub open spec fn decode_resolve_meta(t: Seq<(Seq<char>, ValueModel)>) -> Result<
    Option<Seq<(Seq<char>, Seq<char>)>>,
    DecodeError,
> {
    match tbl_find(t, "metadata"@) {
        Option::None => Ok(Option::None),
        Option::Some(metav) => match metav {
            ValueModel::Table(mt) => match decode_meta_upto(mt, mt.len() as int) {
                Ok(m) => Ok(Option::Some(m)),
                Err(e) => Err(e),
            },
            _ => Err(DecodeError::MetadataNotTable),
        },
    }
}

// ---------------------------------------------------------------------------
// Executable decoding.
// ---------------------------------------------------------------------------
/// The models of a list of strings.
pub open spec fn str_views(s: Seq<String>) -> Seq<Seq<char>> {
    Seq::new(s.len(), |i: int| s[i]@)
}

/// The models of a list of packages.
pub open spec fn pkg_views(s: Seq<Package>) -> Seq<PackageV> {
    Seq::new(s.len(), |i: int| s[i]@)
}

proof fn lemma_strings_err(vs: Seq<ValueModel>, i: int, j: int)
    requires
        0 <= i <= j,
        decode_strings_upto(vs, i) is Err,
    ensures
        decode_strings_upto(vs, j) == decode_strings_upto(vs, i),
    decreases j - i,
{
    if j > i {
        lemma_strings_err(vs, i, j - 1);
    }
}

proof fn lemma_packages_err(vs: Seq<ValueModel>, i: int, j: int)
    requires
        0 <= i <= j,
        decode_packages_upto(vs, i) is Err,
    ensures
        decode_packages_upto(vs, j) == decode_packages_upto(vs, i),
    decreases j - i,
{
    if j > i {
        lemma_packages_err(vs, i, j - 1);
    }
}

proof fn lemma_meta_err(t: Seq<(Seq<char>, ValueModel)>, i: int, j: int)
    requires
        0 <= i <= j,
        decode_meta_upto(t, i) is Err,
    ensures
        decode_meta_upto(t, j) == decode_meta_upto(t, i),
    decreases j - i,
{
    if j > i {
        lemma_meta_err(t, i, j - 1);
    }
}

/// Decodes one package table of a document.
#[verifier::loop_isolation(false)]
pub fn decode_package_value(v: &DocValue) -> (r: Result<Package, DecodeError>)
    ensures
        match r {
            Ok(p) => decode_package(v.model()) == Ok::<PackageV, DecodeError>(p@),
            Err(e) => decode_package(v.model()) == Err::<PackageV, DecodeError>(e),
        },
{
    let entries = match v {
        DocValue::Table(es) => es,
        _ => { return Err(DecodeError::PackageNotTable) },
    };
    let name: String = match find(entries, &"name".to_owned()) {
        Option::Some(nv) => match nv {
            DocValue::Str(s) => s.clone(),
            _ => { return Err(DecodeError::NameNotString) },
        },
        Option::None => { return Err(DecodeError::MissingName) },
    };
    let version: String = match find(entries, &"version".to_owned()) {
        Option::Some(vv) => match vv {
            DocValue::Str(s) => s.clone(),
            _ => { return Err(DecodeError::VersionNotString) },
        },
        Option::None => { return Err(DecodeError::MissingVersion) },
    };
    let source: Option<String> = match find(entries, &"source".to_owned()) {
        Option::Some(sv) => match sv {
            DocValue::Str(s) => Option::Some(s.clone()),
            _ => { return Err(DecodeError::SourceNotString) },
        },
        Option::None => Option::None,
    };
    let mut dependencies: Vec<String> = Vec::new();
    proof {
        assert(str_views(dependencies@) =~= Seq::<Seq<char>>::empty());
    }
    match find(entries, &"dependencies".to_owned()) {
        Option::None => {},
        Option::Some(dv) => match dv {
            DocValue::Arr(vs) => {
                let dn: usize = vs.len();
                let mut i: usize = 0;
                while i < dn
                    invariant
                        0 <= i <= dn,
                        dn == vs.len(),
                        decode_strings_upto(models_of(vs@), i as int) == Ok::<
                            Seq<Seq<char>>,
                            DecodeError,
                        >(str_views(dependencies@)),
                    decreases dn - i,
                {
                    proof {
                        lemma_models_of(vs@);
                    }
                    match &vs[i] {
                        DocValue::Str(s) => {
                            let ghost pre = str_views(dependencies@);
                            dependencies.push(s.clone());
                            proof {
                                assert(str_views(dependencies@) =~= pre.push(s@));
                            }
                        },
                        _ => {
                            proof {
                                lemma_strings_err(models_of(vs@), i as int + 1, dn as int);
                            }
                            return Err(DecodeError::DependencyNotString);
                        },
                    }
                    i += 1;
                }
                proof {
                    lemma_models_of(vs@);
                    assert(decode_strings_upto(models_of(vs@), models_of(vs@).len() as int)
                        == Ok::<Seq<Seq<char>>, DecodeError>(str_views(dependencies@)));
                }
            },
            _ => { return Err(DecodeError::DependenciesNotArray) },
        },
    }
    let p = Package { name, version, source, dependencies };
    proof {
        assert(decode_package(v.model()) matches Ok(q) && q =~~= p@);
    }
    Ok(p)
}

/// Decodes a lockfile document into a resolved graph, anchored to the given
/// source identity.
#[verifier::loop_isolation(false)]
pub fn decode_resolve(doc: &DocValue, source_id: &str) -> (r: Result<Resolve, DecodeError>)
    ensures
        match r {
            Ok(res) => decode_resolve_model(doc.model(), source_id@) == Ok::<
                ResolveV,
                DecodeError,
            >(res@),
            Err(e) => decode_resolve_model(doc.model(), source_id@) == Err::<
                ResolveV,
                DecodeError,
            >(e),
        },
{
    let entries = match doc {
        DocValue::Table(es) => es,
        _ => { return Err(DecodeError::NotATable) },
    };
    let root: Package = match find(entries, &"root".to_owned()) {
        Option::Some(rv) => match decode_package_value(rv) {
            Ok(p) => p,
            Err(e) => { return Err(e) },
        },
        Option::None => { return Err(DecodeError::MissingRoot) },
    };
    let mut packages: Vec<Package> = Vec::new();
    proof {
        assert(pkg_views(packages@) =~= Seq::<PackageV>::empty());
    }
    match find(entries, &"package".to_owned()) {
        Option::None => {},
        Option::Some(pv) => match pv {
            DocValue::Arr(vs) => {
                let pn: usize = vs.len();
                let mut i: usize = 0;
                while i < pn
                    invariant
                        0 <= i <= pn,
                        pn == vs.len(),
                        decode_packages_upto(models_of(vs@), i as int) == Ok::<
                            Seq<PackageV>,
                            DecodeError,
                        >(pkg_views(packages@)),
                    decreases pn - i,
                {
                    proof {
                        lemma_models_of(vs@);
                    }
                    match decode_package_value(&vs[i]) {
                        Ok(p) => {
                            let ghost pre = pkg_views(packages@);
                            let ghost pv2 = p@;
                            packages.push(p);
                            proof {
                                assert(pkg_views(packages@) =~= pre.push(pv2));
                            }
                        },
                        Err(e) => {
                            proof {
                                lemma_packages_err(models_of(vs@), i as int + 1, pn as int);
                            }
                            return Err(e);
                        },
                    }
                    i += 1;
                }
                proof {
                    lemma_models_of(vs@);
                }
            },
            _ => { return Err(DecodeError::PackageListNotArray) },
        },
    }
    let metadata: Option<Vec<(String, String)>> = match find(entries, &"metadata".to_owned()) {
        Option::None => Option::None,
        Option::Some(mv) => match mv {
            DocValue::Table(mt) => {
                let mut pairs: Vec<(String, String)> = Vec::new();
                proof {
                    assert(pairs_model(pairs@) =~= Seq::<(Seq<char>, Seq<char>)>::empty());
                }
                let mn: usize = mt.len();
                let mut j: usize = 0;
                while j < mn
                    invariant
                        0 <= j <= mn,
                        mn == mt.len(),
                        decode_meta_upto(entries_model(mt@), j as int) == Ok::<
                            Seq<(Seq<char>, Seq<char>)>,
                            DecodeError,
                        >(pairs_model(pairs@)),
                    decreases mn - j,
                {
                    proof {
                        lemma_entries_model(mt@);
                    }
                    match &mt[j].1 {
                        DocValue::Str(s) => {
                            let ghost pre = pairs_model(pairs@);
                            pairs.push((mt[j].0.clone(), s.clone()));
                            proof {
                                assert(pairs_model(pairs@) =~= pre.push((mt@[j as int].0@, s@)));
                            }
                        },
                        _ => {
                            proof {
                                lemma_meta_err(entries_model(mt@), j as int + 1, mn as int);
                            }
                            return Err(DecodeError::MetadataValueNotString);
                        },
                    }
                    j += 1;
                }
                proof {
                    lemma_entries_model(mt@);
                }
                Option::Some(pairs)
            },
            _ => { return Err(DecodeError::MetadataNotTable) },
        },
    };
    let res = Resolve { root, packages, metadata, source_id: source_id.to_owned() };
    proof {
        assert(decode_resolve_model(doc.model(), source_id@) matches Ok(q) && q =~~= res@);
    }
    Ok(res)
}

// ---------------------------------------------------------------------------
// The round trip: decoding an encoded graph gives the graph back.
// ---------------------------------------------------------------------------
pub proof fn lemma_package_entries_lookups(p: PackageV)
    ensures
        tbl_find(package_entries(p), "name"@) == Some(ValueModel::Str(p.name)),
        tbl_find(package_entries(p), "version"@) == Some(ValueModel::Str(p.version)),
        tbl_find(package_entries(p), "source"@) == match p.source {
            Option::Some(s) => Some(ValueModel::Str(s)),
            Option::None => None::<ValueModel>,
        },
        tbl_find(package_entries(p), "dependencies"@) == Some(
            ValueModel::Arr(str_models(p.dependencies)),
        ),
{
    reveal_with_fuel(tbl_find, 5);
    reveal_strlit("name");
    reveal_strlit("version");
    reveal_strlit("source");
    reveal_strlit("dependencies");
    assert("name"@.len() == 4 && "version"@.len() == 7 && "source"@.len() == 6
        && "dependencies"@.len() == 12);
    assert("name"@ != "version"@ && "name"@ != "dependencies"@ && "version"@ != "dependencies"@
        && "source"@ != "dependencies"@);
    assert("version"@[0] != "source"@[0]);
    assert("version"@ != "source"@);
    let pe = package_entries(p);
    match p.source {
        Option::Some(s) => {
            assert(pe =~= seq![
                ("name"@, ValueModel::Str(p.name)),
                ("version"@, ValueModel::Str(p.version)),
                ("source"@, ValueModel::Str(s)),
                ("dependencies"@, ValueModel::Arr(str_models(p.dependencies))),
            ]);
            assert(pe[0] == ("name"@, ValueModel::Str(p.name)));
            assert(pe[1] == ("version"@, ValueModel::Str(p.version)));
            assert(pe[2] == ("source"@, ValueModel::Str(s)));
            assert(pe[3] == ("dependencies"@, ValueModel::Arr(str_models(p.dependencies))));
            let t1 = pe.subrange(1, 4);
            let t2 = t1.subrange(1, 3);
            let t3 = t2.subrange(1, 2);
            let t4 = t3.subrange(1, 1);
            assert(t1 =~= seq![pe[1], pe[2], pe[3]]);
            assert(t2 =~= seq![pe[2], pe[3]]);
            assert(t3 =~= seq![pe[3]]);
            assert(t4 =~= Seq::<(Seq<char>, ValueModel)>::empty());
        },
        Option::None => {
            assert(pe =~= seq![
                ("name"@, ValueModel::Str(p.name)),
                ("version"@, ValueModel::Str(p.version)),
                ("dependencies"@, ValueModel::Arr(str_models(p.dependencies))),
            ]);
            assert(pe[0] == ("name"@, ValueModel::Str(p.name)));
            assert(pe[1] == ("version"@, ValueModel::Str(p.version)));
            assert(pe[2] == ("dependencies"@, ValueModel::Arr(str_models(p.dependencies))));
            let t1 = pe.subrange(1, 3);
            let t2 = t1.subrange(1, 2);
            let t3 = t2.subrange(1, 1);
            assert(t1 =~= seq![pe[1], pe[2]]);
            assert(t2 =~= seq![pe[2]]);
            assert(t3 =~= Seq::<(Seq<char>, ValueModel)>::empty());
        },
    }
}

pub proof fn lemma_resolve_entries_lookups(r: ResolveV)
    ensures
        tbl_find(resolve_entries(r), "root"@) == Some(
            ValueModel::Table(package_entries(r.root)),
        ),
        tbl_find(resolve_entries(r), "package"@) == Some(
            ValueModel::Arr(package_list_model(r.packages)),
        ),
        tbl_find(resolve_entries(r), "metadata"@) == match r.metadata {
            Option::Some(m) => Some(ValueModel::Table(meta_entries(m))),
            Option::None => None::<ValueModel>,
        },
{
    reveal_with_fuel(tbl_find, 4);
    reveal_strlit("root");
    reveal_strlit("package");
    reveal_strlit("metadata");
    assert("root"@.len() == 4 && "package"@.len() == 7 && "metadata"@.len() == 8);
    assert("root"@ != "package"@ && "root"@ != "metadata"@ && "package"@ != "metadata"@);
    let re = resolve_entries(r);
    match r.metadata {
        Option::Some(m) => {
            assert(re =~= seq![
                ("root"@, ValueModel::Table(package_entries(r.root))),
                ("package"@, ValueModel::Arr(package_list_model(r.packages))),
                ("metadata"@, ValueModel::Table(meta_entries(m))),
            ]);
            assert(re[0] == ("root"@, ValueModel::Table(package_entries(r.root))));
            assert(re[1] == ("package"@, ValueModel::Arr(package_list_model(r.packages))));
            assert(re[2] == ("metadata"@, ValueModel::Table(meta_entries(m))));
            let t1 = re.subrange(1, 3);
            let t2 = t1.subrange(1, 2);
            let t3 = t2.subrange(1, 1);
            assert(t1 =~= seq![re[1], re[2]]);
            assert(t2 =~= seq![re[2]]);
            assert(t3 =~= Seq::<(Seq<char>, ValueModel)>::empty());
        },
        Option::None => {
            assert(re =~= seq![
                ("root"@, ValueModel::Table(package_entries(r.root))),
                ("package"@, ValueModel::Arr(package_list_model(r.packages))),
            ]);
            assert(re[0] == ("root"@, ValueModel::Table(package_entries(r.root))));
            assert(re[1] == ("package"@, ValueModel::Arr(package_list_model(r.packages))));
            let t1 = re.subrange(1, 2);
            let t2 = t1.subrange(1, 1);
            assert(t1 =~= seq![re[1]]);
            assert(t2 =~= Seq::<(Seq<char>, ValueModel)>::empty());
        },
    }
}

proof fn lemma_decode_strings_roundtrip(d: Seq<Seq<char>>, i: int)
    requires
        0 <= i <= d.len(),
    ensures
        decode_strings_upto(str_models(d), i) == Ok::<Seq<Seq<char>>, DecodeError>(d.take(i)),
    decreases i,
{
    if i > 0 {
        lemma_decode_strings_roundtrip(d, i - 1);
        assert(d.take(i) =~= d.take(i - 1).push(d[i - 1]));
    } else {
        assert(d.take(0) =~= Seq::<Seq<char>>::empty());
    }
}

proof fn lemma_decode_package_roundtrip(p: PackageV)
    ensures
        decode_package(ValueModel::Table(package_entries(p))) == Ok::<PackageV, DecodeError>(p),
{
    lemma_package_entries_lookups(p);
    lemma_decode_strings_roundtrip(p.dependencies, p.dependencies.len() as int);
    assert(p.dependencies.take(p.dependencies.len() as int) =~= p.dependencies);
    assert(str_models(p.dependencies).len() == p.dependencies.len());
    assert(decode_package(ValueModel::Table(package_entries(p))) matches Ok(q) && q =~~= p);
}

proof fn lemma_decode_packages_roundtrip(ps: Seq<PackageV>, i: int)
    requires
        0 <= i <= ps.len(),
    ensures
        decode_packages_upto(package_list_model(ps), i) == Ok::<Seq<PackageV>, DecodeError>(
            ps.take(i),
        ),
    decreases i,
{
    if i > 0 {
        lemma_decode_packages_roundtrip(ps, i - 1);
        lemma_decode_package_roundtrip(ps[i - 1]);
        assert(ps.take(i) =~= ps.take(i - 1).push(ps[i - 1]));
    } else {
        assert(ps.take(0) =~= Seq::<PackageV>::empty());
    }
}

proof fn lemma_decode_meta_roundtrip(m: Seq<(Seq<char>, Seq<char>)>, i: int)
    requires
        0 <= i <= m.len(),
    ensures
        decode_meta_upto(meta_entries(m), i) == Ok::<Seq<(Seq<char>, Seq<char>)>, DecodeError>(
            m.take(i),
        ),
    decreases i,
{
    if i > 0 {
        lemma_decode_meta_roundtrip(m, i - 1);
        assert(m.take(i) =~= m.take(i - 1).push((m[i - 1].0, m[i - 1].1)));
        assert(m.take(i - 1).push((m[i - 1].0, m[i - 1].1)) =~= m.take(i - 1).push(m[i - 1]));
    } else {
        assert(m.take(0) =~= Seq::<(Seq<char>, Seq<char>)>::empty());
    }
}

/// The load/save round trip: decoding the document that a graph encodes to,
/// with the graph's own source identity, gives the graph back unchanged —
/// packages, versions, sources and dependency lists alike.
pub proof fn lemma_round_trip(r: ResolveV)
    ensures
        decode_resolve_model(encode_resolve_model(r), r.source_id) == Ok::<
            ResolveV,
            DecodeError,
        >(r),
{
    lemma_resolve_entries_lookups(r);
    lemma_decode_package_roundtrip(r.root);
    lemma_decode_packages_roundtrip(r.packages, r.packages.len() as int);
    assert(r.packages.take(r.packages.len() as int) =~= r.packages);
    assert(package_list_model(r.packages).len() == r.packages.len());
    match r.metadata {
        Option::Some(m) => {
            lemma_decode_meta_roundtrip(m, m.len() as int);
            assert(m.take(m.len() as int) =~= m);
            assert(meta_entries(m).len() == m.len());
        },
        Option::None => {},
    }
    assert(decode_resolve_model(encode_resolve_model(r), r.source_id) matches Ok(q) && q =~~= r);
}

} // verus!
