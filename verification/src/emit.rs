//! The canonical emitter: prints an encoded lockfile document in a fixed,
//! diff-friendly layout.  Each package table is printed in the order `name`,
//! `version`, `source` (when present), `dependencies` (when present), whatever
//! order the encoder stored the keys in, and dependency lists get one line per
//! entry so that adding or removing one touches one line.

use vstd::prelude::*;
use vstd::string::StringExecFns;

use crate::codec::{
    encode_resolve_model, meta_entries, package_entries, package_list_model, str_models,
};
use crate::document::{
    arr_of, entries_model, find, lemma_entries_model, lemma_models_of, models_of, str_of,
    table_of, tbl_find, DocValue, ValueModel,
};
use crate::resolve::{pairs_model, PackageV, ResolveV};
use crate::toml_text::{render_metadata, render_string, rendered_meta, rendered_str};

verus! {

/// A package table the emitter can print: `name` and `version` are present
/// and strings, `source` is a string if present, `dependencies` an array of
/// strings if present.
pub open spec fn package_table_wf(t: Seq<(Seq<char>, ValueModel)>) -> bool {
    &&& tbl_find(t, "name"@) matches Some(n) && n is Str
    &&& tbl_find(t, "version"@) matches Some(v) && v is Str
    &&& match tbl_find(t, "source"@) {
        Option::Some(s) => s is Str,
        Option::None => true,
    }
    &&& match tbl_find(t, "dependencies"@) {
        Option::Some(d) => d matches ValueModel::Arr(vs) && (forall|i: int|
            0 <= i < vs.len() ==> vs[i] is Str),
        Option::None => true,
    }
}

/// A document the emitter can print: a table with a well-formed `root`
/// package table, a `package` array of well-formed package tables, and, if
/// present, a `metadata` table of strings.
pub open spec fn doc_wf(v: ValueModel) -> bool {
    &&& v is Table
    &&& tbl_find(table_of(v), "root"@) matches Some(rt) && rt is Table && package_table_wf(
        table_of(rt),
    )
    &&& tbl_find(table_of(v), "package"@) matches Some(ps) && ps is Arr && (forall|i: int|
        0 <= i < arr_of(ps).len() ==> #[trigger] arr_of(ps)[i] is Table && package_table_wf(
            table_of(arr_of(ps)[i]),
        ))
    &&& match tbl_find(table_of(v), "metadata"@) {
        Option::Some(m) => m is Table && (forall|i: int|
            0 <= i < table_of(m).len() ==> (#[trigger] table_of(m)[i]).1 is Str),
        Option::None => true,
    }
}

/// The value under a key, for a table known to hold one.
pub open spec fn found(o: Option<ValueModel>) -> ValueModel {
    match o {
        Option::Some(v) => v,
        Option::None => ValueModel::Other,
    }
}

/// The first `i` dependency lines: one per entry, a single leading space and
/// a trailing comma each.
pub open spec fn dep_lines_upto(vs: Seq<ValueModel>, i: int) -> Seq<char>
    decreases i,
{
    if i <= 0 {
        Seq::empty()
    } else {
        dep_lines_upto(vs, i - 1) + " "@ + rendered_str(str_of(vs[i - 1])) + ",\n"@
    }
}

/// The dependency block: a bracketed line-per-entry list followed by a blank
/// line; an empty list keeps the blank line but drops the brackets.
pub open spec fn deps_block(vs: Seq<ValueModel>) -> Seq<char> {
    if vs.len() == 0 {
        "\n"@
    } else {
        "dependencies = [\n"@ + dep_lines_upto(vs, vs.len() as int) + "]\n"@ + "\n"@
    }
}

/// The canonical text of one package table: lines in the order `name`,
/// `version`, `source` (when present), `dependencies` (when present),
/// independent of the order the table stores its keys in.
pub open spec fn emitted_package(t: Seq<(Seq<char>, ValueModel)>) -> Seq<char> {
    "name = "@ + rendered_str(str_of(found(tbl_find(t, "name"@)))) + "\n"@ + "version = "@
        + rendered_str(str_of(found(tbl_find(t, "version"@)))) + "\n"@ + (match tbl_find(
        t,
        "source"@,
    ) {
        Option::Some(s) => "source = "@ + rendered_str(str_of(s)) + "\n"@,
        Option::None => Seq::empty(),
    }) + (match tbl_find(t, "dependencies"@) {
        Option::Some(d) => deps_block(arr_of(d)),
        Option::None => Seq::empty(),
    })
}

/// The first `i` package blocks, each under its own `[[package]]` header.
pub open spec fn pkg_blocks_upto(vs: Seq<ValueModel>, i: int) -> Seq<char>
    decreases i,
{
    if i <= 0 {
        Seq::empty()
    } else {
        pkg_blocks_upto(vs, i - 1) + "[[package]]\n"@ + emitted_package(table_of(vs[i - 1]))
    }
}

/// The key/value pairs of a metadata table of strings.
pub open spec fn meta_pairs(t: Seq<(Seq<char>, ValueModel)>) -> Seq<(Seq<char>, Seq<char>)> {
    Seq::new(t.len(), |i: int| (t[i].0, str_of(t[i].1)))
}

/// The canonical text of a whole lockfile document: the root package under
/// `[root]`, each other package under `[[package]]`, and the metadata table,
/// when there is one, under `[metadata]` in its generic rendering.
pub open spec fn emitted_lockfile(v: ValueModel) -> Seq<char> {
    let t = table_of(v);
    let pkgs = arr_of(found(tbl_find(t, "package"@)));
    "[root]\n"@ + emitted_package(table_of(found(tbl_find(t, "root"@)))) + pkg_blocks_upto(
        pkgs,
        pkgs.len() as int,
    ) + (match tbl_find(t, "metadata"@) {
        Option::Some(m) => "[metadata]\n"@ + rendered_meta(meta_pairs(table_of(m))),
        Option::None => Seq::empty(),
    })
}

/// Prints one package table in canonical order.
#[verifier::loop_isolation(false)]
pub fn emit_package(entries: &Vec<(String, DocValue)>) -> (out: String)
    requires
        package_table_wf(entries_model(entries@)),
    ensures
        out@ == emitted_package(entries_model(entries@)),
{
    let ghost t = entries_model(entries@);
    let mut out = String::new();
    out.append("name = ");
    match find(entries, &"name".to_owned()) {
        Option::Some(nv) => match nv {
            DocValue::Str(s) => {
                let r = render_string(s);
                out.append(r.as_str());
            },
            _ => { unreached::<()>() },
        },
        Option::None => { unreached::<()>() },
    }
    out.append("\n");
    out.append("version = ");
    match find(entries, &"version".to_owned()) {
        Option::Some(vv) => match vv {
            DocValue::Str(s) => {
                let r = render_string(s);
                out.append(r.as_str());
            },
            _ => { unreached::<()>() },
        },
        Option::None => { unreached::<()>() },
    }
    out.append("\n");
    match find(entries, &"source".to_owned()) {
        Option::Some(sv) => match sv {
            DocValue::Str(s) => {
                out.append("source = ");
                let r = render_string(s);
                out.append(r.as_str());
                out.append("\n");
            },
            _ => { unreached::<()>() },
        },
        Option::None => {},
    }
    match find(entries, &"dependencies".to_owned()) {
        Option::Some(dv) => match dv {
            DocValue::Arr(vs) => {
                let ghost before = out@;
                if vs.len() > 0 {
                    out.append("dependencies = [\n");
                    let dn: usize = vs.len();
                    let mut i: usize = 0;
                    while i < dn
                        invariant
                            0 <= i <= dn,
                            out@ == before + "dependencies = [\n"@ + dep_lines_upto(
                                models_of(vs@),
                                i as int,
                            ),
                        decreases dn - i,
                    {
                        proof {
                            lemma_models_of(vs@);
                        }
                        match &vs[i] {
                            DocValue::Str(s) => {
                                out.append(" ");
                                let r = render_string(s);
                                out.append(r.as_str());
                                out.append(",\n");
                            },
                            _ => {
                                proof {
                                    let m = models_of(vs@);
                                    assert(m[i as int] == vs@[i as int].model());
                                    assert(tbl_find(t, "dependencies"@) == Some(dv.model()));
                                    assert(dv.model() == ValueModel::Arr(m));
                                    assert(m[i as int] is Str);
                                }
                                unreached::<()>()
                            },
                        }
                        i += 1;
                        proof {
                            assert(out@ =~= before + "dependencies = [\n"@ + dep_lines_upto(
                                models_of(vs@),
                                i as int,
                            ));
                        }
                    }
                    out.append("]\n");
                    out.append("\n");
                    proof {
                        lemma_models_of(vs@);
                        assert(out@ =~= before + deps_block(arr_of(dv.model())));
                    }
                } else {
                    out.append("\n");
                    proof {
                        lemma_models_of(vs@);
                        assert(out@ =~= before + deps_block(arr_of(dv.model())));
                    }
                }
            },
            _ => { unreached::<()>() },
        },
        Option::None => {},
    }
    proof {
        assert(out@ =~= emitted_package(t));
    }
    out
}

/// Prints a whole lockfile document in canonical order.
#[verifier::loop_isolation(false)]
pub fn emit_lockfile(doc: &DocValue) -> (out: String)
    requires
        doc_wf(doc.model()),
    ensures
        out@ == emitted_lockfile(doc.model()),
{
    let entries = match doc {
        DocValue::Table(es) => es,
        _ => { unreached() },
    };
    let ghost t = entries_model(entries@);
    let mut out = String::new();
    out.append("[root]\n");
    match find(entries, &"root".to_owned()) {
        Option::Some(rv) => match rv {
            DocValue::Table(res) => {
                let block = emit_package(res);
                out.append(block.as_str());
            },
            _ => { unreached::<()>() },
        },
        Option::None => { unreached::<()>() },
    }
    let ghost after_root = out@;
    match find(entries, &"package".to_owned()) {
        Option::Some(pv) => match pv {
            DocValue::Arr(vs) => {
                let pn: usize = vs.len();
                let mut i: usize = 0;
                proof {
                    lemma_models_of(vs@);
                    assert(after_root + pkg_blocks_upto(models_of(vs@), 0) =~= after_root);
                }
                while i < pn
                    invariant
                        0 <= i <= pn,
                        out@ == after_root + pkg_blocks_upto(models_of(vs@), i as int),
                    decreases pn - i,
                {
                    proof {
                        lemma_models_of(vs@);
                    }
                    out.append("[[package]]\n");
                    match &vs[i] {
                        DocValue::Table(pes) => {
                            proof {
                                let m = models_of(vs@);
                                assert(m[i as int] == vs@[i as int].model());
                                assert(m[i as int] is Table && package_table_wf(
                                    table_of(m[i as int]),
                                ));
                            }
                            let block = emit_package(pes);
                            out.append(block.as_str());
                        },
                        _ => {
                            proof {
                                let m = models_of(vs@);
                                assert(m[i as int] == vs@[i as int].model());
                                assert(m[i as int] is Table);
                            }
                            unreached::<()>()
                        },
                    }
                    i += 1;
                    proof {
                        assert(out@ =~= after_root + pkg_blocks_upto(models_of(vs@), i as int));
                    }
                }
            },
            _ => { unreached::<()>() },
        },
        Option::None => { unreached::<()>() },
    }
    match find(entries, &"metadata".to_owned()) {
        Option::Some(mv) => match mv {
            DocValue::Table(mt) => {
                let ghost before_meta = out@;
                out.append("[metadata]\n");
                let mut pairs: Vec<(String, String)> = Vec::new();
                let mn: usize = mt.len();
                let mut j: usize = 0;
                proof {
                    lemma_entries_model(mt@);
                    assert(pairs_model(pairs@) =~= meta_pairs(entries_model(mt@)).take(0));
                }
                while j < mn
                    invariant
                        0 <= j <= mn,
                        pairs@.len() == j,
                        pairs_model(pairs@) == meta_pairs(entries_model(mt@)).take(j as int),
                    decreases mn - j,
                {
                    proof {
                        lemma_entries_model(mt@);
                    }
                    match &mt[j].1 {
                        DocValue::Str(s) => {
                            pairs.push((mt[j].0.clone(), s.clone()));
                            proof {
                                assert(pairs_model(pairs@) =~= meta_pairs(entries_model(mt@)).take(
                                    j as int + 1,
                                ));
                            }
                        },
                        _ => {
                            proof {
                                let m = entries_model(mt@);
                                assert(m[j as int] == (mt@[j as int].0@, mt@[j as int].1.model()));
                                assert(m[j as int].1 is Str);
                            }
                            unreached::<()>()
                        },
                    }
                    j += 1;
                }
                let rendered = render_metadata(&pairs);
                out.append(rendered.as_str());
                proof {
                    lemma_entries_model(mt@);
                    assert(meta_pairs(entries_model(mt@)).take(mn as int) =~= meta_pairs(
                        entries_model(mt@),
                    ));
                }
            },
            _ => { unreached::<()>() },
        },
        Option::None => {},
    }
    proof {
        assert(out@ =~= emitted_lockfile(doc.model()));
    }
    out
}

/// Field order is canonical: the emitter reads a package table only through
/// its four fixed keys, so two tables that map those keys alike are printed
/// alike, whatever order their entries are stored in.
pub proof fn lemma_emit_order_independent(
    t1: Seq<(Seq<char>, ValueModel)>,
    t2: Seq<(Seq<char>, ValueModel)>,
)
    requires
        tbl_find(t1, "name"@) == tbl_find(t2, "name"@),
        tbl_find(t1, "version"@) == tbl_find(t2, "version"@),
        tbl_find(t1, "source"@) == tbl_find(t2, "source"@),
        tbl_find(t1, "dependencies"@) == tbl_find(t2, "dependencies"@),
    ensures
        emitted_package(t1) == emitted_package(t2),
{
}

/// The header lines of one encoded package: everything before the dependency
/// block.
pub open spec fn canonical_header(p: PackageV) -> Seq<char> {
    "name = "@ + rendered_str(p.name) + "\n"@ + "version = "@ + rendered_str(p.version) + "\n"@
        + (match p.source {
        Option::Some(s) => "source = "@ + rendered_str(s) + "\n"@,
        Option::None => Seq::empty(),
    })
}

/// The dependency block of one encoded package.
pub open spec fn canonical_deps(d: Seq<Seq<char>>) -> Seq<char> {
    deps_block(str_models(d))
}

/// An encoded package's block is its header followed by its dependency block.
pub proof fn lemma_emitted_encoded_package(p: PackageV)
    ensures
        emitted_package(package_entries(p)) == canonical_header(p) + canonical_deps(
            p.dependencies,
        ),
{
    crate::codec::lemma_package_entries_lookups(p);
    assert(emitted_package(package_entries(p)) =~= canonical_header(p) + canonical_deps(
        p.dependencies,
    ));
}

/// The blocks of the packages from `i` on.
pub open spec fn pkg_blocks_from(vs: Seq<ValueModel>, i: int) -> Seq<char>
    decreases vs.len() - i,
{
    if i < 0 || i >= vs.len() {
        Seq::empty()
    } else {
        "[[package]]\n"@ + emitted_package(table_of(vs[i])) + pkg_blocks_from(vs, i + 1)
    }
}

proof fn lemma_blocks_split(vs: Seq<ValueModel>, i: int)
    requires
        0 <= i <= vs.len(),
    ensures
        pkg_blocks_upto(vs, vs.len() as int) == pkg_blocks_upto(vs, i) + pkg_blocks_from(vs, i),
    decreases vs.len() - i,
{
    if i == vs.len() {
        assert(pkg_blocks_upto(vs, i) + pkg_blocks_from(vs, i) =~= pkg_blocks_upto(vs, i));
    } else {
        lemma_blocks_split(vs, i + 1);
        assert(pkg_blocks_upto(vs, i + 1) + pkg_blocks_from(vs, i + 1) =~= pkg_blocks_upto(vs, i)
            + pkg_blocks_from(vs, i));
    }
}

proof fn lemma_upto_pointwise(vs1: Seq<ValueModel>, vs2: Seq<ValueModel>, i: int)
    requires
        forall|j: int| 0 <= j < i ==> vs1[j] == vs2[j],
    ensures
        pkg_blocks_upto(vs1, i) == pkg_blocks_upto(vs2, i),
    decreases i,
{
    if i > 0 {
        lemma_upto_pointwise(vs1, vs2, i - 1);
    }
}

proof fn lemma_from_pointwise(vs1: Seq<ValueModel>, vs2: Seq<ValueModel>, i: int)
    requires
        vs1.len() == vs2.len(),
        forall|j: int| i <= j < vs1.len() ==> vs1[j] == vs2[j],
    ensures
        pkg_blocks_from(vs1, i) == pkg_blocks_from(vs2, i),
    decreases vs1.len() - i,
{
    if 0 <= i < vs1.len() {
        lemma_from_pointwise(vs1, vs2, i + 1);
    }
}

/// Everything of a rendered lockfile before one package's dependency block.
pub open spec fn diff_prefix(r: ResolveV, k: int) -> Seq<char> {
    "[root]\n"@ + emitted_package(package_entries(r.root)) + pkg_blocks_upto(
        package_list_model(r.packages),
        k,
    ) + "[[package]]\n"@ + canonical_header(r.packages[k])
}

/// Everything of a rendered lockfile after one package's dependency block.
pub open spec fn diff_suffix(r: ResolveV, k: int) -> Seq<char> {
    pkg_blocks_from(package_list_model(r.packages), k + 1) + (match r.metadata {
        Option::Some(m) => "[metadata]\n"@ + rendered_meta(m),
        Option::None => Seq::empty(),
    })
}

proof fn lemma_assoc(a: Seq<char>, b: Seq<char>, c: Seq<char>)
    ensures
        (a + b) + c == a + (b + c),
{
    assert((a + b) + c =~= a + (b + c));
}

proof fn lemma_lockfile_split(r: ResolveV, k: int)
    requires
        0 <= k < r.packages.len(),
    ensures
        emitted_lockfile(encode_resolve_model(r)) == diff_prefix(r, k) + canonical_deps(
            r.packages[k].dependencies,
        ) + diff_suffix(r, k),
{
    crate::codec::lemma_resolve_entries_lookups(r);
    let pl = package_list_model(r.packages);
    let n = pl.len() as int;
    let head = "[root]\n"@ + emitted_package(package_entries(r.root));
    let meta = match r.metadata {
        Option::Some(m) => "[metadata]\n"@ + rendered_meta(m),
        Option::None => Seq::<char>::empty(),
    };
    match r.metadata {
        Option::Some(m) => {
            assert(meta_pairs(meta_entries(m)) =~= m);
        },
        Option::None => {},
    }
    let e = emitted_lockfile(encode_resolve_model(r));
    assert(e == (head + pkg_blocks_upto(pl, n)) + meta);
    lemma_blocks_split(pl, k);
    lemma_emitted_encoded_package(r.packages[k]);
    let hdr = canonical_header(r.packages[k]);
    let deps = canonical_deps(r.packages[k].dependencies);
    let up = pkg_blocks_upto(pl, k);
    let from = pkg_blocks_from(pl, k + 1);
    let hdrline = "[[package]]\n"@;
    assert(pkg_blocks_from(pl, k) == (hdrline + (hdr + deps)) + from);
    lemma_assoc(head, up, pkg_blocks_from(pl, k));
    assert(e == ((head + up) + ((hdrline + (hdr + deps)) + from)) + meta);
    let p = head + up;
    lemma_assoc(p, hdrline + (hdr + deps), from);
    lemma_assoc(p, hdrline, hdr + deps);
    lemma_assoc(p + hdrline, hdr, deps);
    assert(diff_prefix(r, k) == (p + hdrline) + hdr);
    assert(e == ((diff_prefix(r, k) + deps) + from) + meta);
    lemma_assoc(diff_prefix(r, k) + deps, from, meta);
    assert(diff_suffix(r, k) == from + meta);
}

/// Diff minimality: two graphs that differ only in one package's dependency
/// list render to texts that share one prefix and one suffix around that
/// package's dependency block — every character outside the block is the
/// same in both files.
pub proof fn lemma_diff_minimal(a: ResolveV, b: ResolveV, k: int)
    requires
        0 <= k < a.packages.len(),
        b.packages.len() == a.packages.len(),
        b.root == a.root,
        b.metadata == a.metadata,
        forall|j: int| 0 <= j < a.packages.len() && j != k ==> b.packages[j] == a.packages[j],
        b.packages[k].name == a.packages[k].name,
        b.packages[k].version == a.packages[k].version,
        b.packages[k].source == a.packages[k].source,
    ensures
        emitted_lockfile(encode_resolve_model(a)) == diff_prefix(a, k) + canonical_deps(
            a.packages[k].dependencies,
        ) + diff_suffix(a, k),
        emitted_lockfile(encode_resolve_model(b)) == diff_prefix(a, k) + canonical_deps(
            b.packages[k].dependencies,
        ) + diff_suffix(a, k),
{
    lemma_lockfile_split(a, k);
    lemma_lockfile_split(b, k);
    let pla = package_list_model(a.packages);
    let plb = package_list_model(b.packages);
    lemma_upto_pointwise(plb, pla, k);
    lemma_from_pointwise(plb, pla, k + 1);
    assert(diff_prefix(b, k) =~= diff_prefix(a, k));
    assert(diff_suffix(b, k) =~= diff_suffix(a, k));
}

/// Everything of a rendered lockfile before the root package's dependency
/// block.
pub open spec fn root_diff_prefix(r: ResolveV) -> Seq<char> {
    "[root]\n"@ + canonical_header(r.root)
}

/// Everything of a rendered lockfile after the root package's dependency
/// block.
pub open spec fn root_diff_suffix(r: ResolveV) -> Seq<char> {
    pkg_blocks_upto(package_list_model(r.packages), r.packages.len() as int) + (match r.metadata {
        Option::Some(m) => "[metadata]\n"@ + rendered_meta(m),
        Option::None => Seq::empty(),
    })
}

proof fn lemma_lockfile_root_split(r: ResolveV)
    ensures
        emitted_lockfile(encode_resolve_model(r)) == root_diff_prefix(r) + canonical_deps(
            r.root.dependencies,
        ) + root_diff_suffix(r),
{
    crate::codec::lemma_resolve_entries_lookups(r);
    lemma_emitted_encoded_package(r.root);
    let pl = package_list_model(r.packages);
    let up = pkg_blocks_upto(pl, pl.len() as int);
    let meta = match r.metadata {
        Option::Some(m) => "[metadata]\n"@ + rendered_meta(m),
        Option::None => Seq::<char>::empty(),
    };
    match r.metadata {
        Option::Some(m) => {
            assert(meta_pairs(meta_entries(m)) =~= m);
        },
        Option::None => {},
    }
    let hdr = canonical_header(r.root);
    let deps = canonical_deps(r.root.dependencies);
    let e = emitted_lockfile(encode_resolve_model(r));
    assert(e == (("[root]\n"@ + (hdr + deps)) + up) + meta);
    lemma_assoc("[root]\n"@, hdr, deps);
    lemma_assoc(root_diff_prefix(r) + deps, up, meta);
    assert(root_diff_suffix(r) == up + meta);
}

/// Diff minimality for the root package: two graphs that differ only in the
/// root's dependency list render to texts that share one prefix and one
/// suffix around the root's dependency block — every character outside the
/// block is the same in both files.
pub proof fn lemma_diff_minimal_root(a: ResolveV, b: ResolveV)
    requires
        b.packages == a.packages,
        b.metadata == a.metadata,
        b.root.name == a.root.name,
        b.root.version == a.root.version,
        b.root.source == a.root.source,
    ensures
        emitted_lockfile(encode_resolve_model(a)) == root_diff_prefix(a) + canonical_deps(
            a.root.dependencies,
        ) + root_diff_suffix(a),
        emitted_lockfile(encode_resolve_model(b)) == root_diff_prefix(a) + canonical_deps(
            b.root.dependencies,
        ) + root_diff_suffix(a),
{
    lemma_lockfile_root_split(a);
    lemma_lockfile_root_split(b);
    assert(root_diff_prefix(b) == root_diff_prefix(a));
    assert(root_diff_suffix(b) == root_diff_suffix(a));
}

/// An encoded graph is always a document the emitter can print.
pub proof fn lemma_encode_doc_wf(r: ResolveV)
    ensures
        doc_wf(encode_resolve_model(r)),
{
    crate::codec::lemma_resolve_entries_lookups(r);
    crate::codec::lemma_package_entries_lookups(r.root);
    let ps = package_list_model(r.packages);
    assert forall|i: int| 0 <= i < ps.len() implies #[trigger] ps[i] is Table && package_table_wf(
        table_of(ps[i]),
    ) by {
        crate::codec::lemma_package_entries_lookups(r.packages[i]);
    }
}

} // verus!
