//! The generic document model: a format-agnostic tree of tables, arrays and
//! strings, the intermediate between lockfile text and the resolver graph.

use vstd::prelude::*;

verus! {

/// A generic document value.  Tables keep their entries as an ordered list of
/// key/value pairs; nothing in this crate relies on that order for package
/// fields — the canonical emitter re-imposes its own order by key lookup.
/// `Other` stands for any primitive the lockfile schema has no use for.
#[derive(Debug, PartialEq, Eq)]
pub enum DocValue {
    Str(String),
    Arr(Vec<DocValue>),
    Table(Vec<(String, DocValue)>),
    Other,
}

/// The mathematical model of a document value.
#[verifier::ext_equal]
pub enum ValueModel {
    Str(Seq<char>),
    Arr(Seq<ValueModel>),
    Table(Seq<(Seq<char>, ValueModel)>),
    Other,
}

impl DocValue {
    /// The model of this value: the same tree over `Seq<char>`.
    pub open spec fn model(self) -> ValueModel
        decreases self,
    {
        match self {
            DocValue::Str(s) => ValueModel::Str(s@),
            DocValue::Arr(a) => ValueModel::Arr(models_of(a@)),
            DocValue::Table(t) => ValueModel::Table(entries_model(t@)),
            DocValue::Other => ValueModel::Other,
        }
    }
}

/// The models of a sequence of values, element by element.
pub open spec fn models_of(s: Seq<DocValue>) -> Seq<ValueModel>
    decreases s,
{
    if s.len() == 0 {
        Seq::empty()
    } else {
        seq![s[0].model()] + models_of(s.subrange(1, s.len() as int))
    }
}

/// The string inside a value; meaningful only for a `Str` value.
pub open spec fn str_of(v: ValueModel) -> Seq<char> {
    match v {
        ValueModel::Str(s) => s,
        _ => arbitrary(),
    }
}

/// The elements of a value; meaningful only for an `Arr` value.
pub open spec fn arr_of(v: ValueModel) -> Seq<ValueModel> {
    match v {
        ValueModel::Arr(vs) => vs,
        _ => arbitrary(),
    }
}

/// The entries of a value; meaningful only for a `Table` value.
pub open spec fn table_of(v: ValueModel) -> Seq<(Seq<char>, ValueModel)> {
    match v {
        ValueModel::Table(t) => t,
        _ => arbitrary(),
    }
}

/// The model of a table's entry list, entry by entry.
pub open spec fn entries_model(s: Seq<(String, DocValue)>) -> Seq<(Seq<char>, ValueModel)>
    decreases s,
{
    if s.len() == 0 {
        Seq::empty()
    } else {
        seq![(s[0].0@, s[0].1.model())] + entries_model(s.subrange(1, s.len() as int))
    }
}

/// The element models are the models of the elements.
pub proof fn lemma_models_of(s: Seq<DocValue>)
    ensures
        models_of(s).len() == s.len(),
        forall|i: int| 0 <= i < s.len() ==> models_of(s)[i] == s[i].model(),
    decreases s,
{
    if s.len() > 0 {
        lemma_models_of(s.subrange(1, s.len() as int));
    }
}

/// The entry models are the models of the entries.
pub proof fn lemma_entries_model(s: Seq<(String, DocValue)>)
    ensures
        entries_model(s).len() == s.len(),
        forall|i: int| 0 <= i < s.len() ==> entries_model(s)[i] == (s[i].0@, s[i].1.model()),
    decreases s,
{
    if s.len() > 0 {
        lemma_entries_model(s.subrange(1, s.len() as int));
    }
}

/// Key lookup in a table: the value of the first entry whose key matches.
pub open spec fn tbl_find(entries: Seq<(Seq<char>, ValueModel)>, key: Seq<char>) -> Option<
    ValueModel,
>
    decreases entries.len(),
{
    if entries.len() == 0 {
        None
    } else if entries[0].0 == key {
        Some(entries[0].1)
    } else {
        tbl_find(entries.subrange(1, entries.len() as int), key)
    }
}

proof fn lemma_tbl_find_skip(entries: Seq<(Seq<char>, ValueModel)>, key: Seq<char>, i: int)
    requires
        0 <= i <= entries.len(),
        forall|j: int| 0 <= j < i ==> entries[j].0 != key,
    ensures
        tbl_find(entries, key) == tbl_find(entries.subrange(i, entries.len() as int), key),
    decreases i,
{
    if i > 0 {
        lemma_tbl_find_skip(entries, key, i - 1);
        assert(entries.subrange(i - 1, entries.len() as int).subrange(
            1,
            entries.subrange(i - 1, entries.len() as int).len() as int,
        ) =~= entries.subrange(i, entries.len() as int));
    } else {
        assert(entries.subrange(0, entries.len() as int) =~= entries);
    }
}

/// Looks a key up in a table's entry list, first match wins.
pub fn find<'a>(entries: &'a Vec<(String, DocValue)>, key: &String) -> (r: Option<&'a DocValue>)
    ensures
        match r {
            Some(v) => tbl_find(entries_model(entries@), key@) == Some(v.model()),
            None => tbl_find(entries_model(entries@), key@) is None,
        },
{
    let n: usize = entries.len();
    let mut i: usize = 0;
    while i < n
        invariant
            0 <= i <= n,
            n == entries.len(),
            forall|j: int| 0 <= j < i ==> entries@[j].0@ != key@,
        decreases n - i,
    {
        if entries[i].0 == *key {
            proof {
                let m = entries_model(entries@);
                lemma_entries_model(entries@);
                lemma_tbl_find_skip(m, key@, i as int);
                assert(m.subrange(i as int, m.len() as int)[0] == m[i as int]);
            }
            return Some(&entries[i].1);
        }
        i += 1;
    }
    proof {
        let m = entries_model(entries@);
        lemma_entries_model(entries@);
        lemma_tbl_find_skip(m, key@, n as int);
        assert(m.subrange(n as int, m.len() as int).len() == 0);
    }
    None
}

} // verus!
