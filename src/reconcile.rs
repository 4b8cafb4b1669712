use vstd::prelude::*;
use crate::names::{valid_table_name, NameError, TableName};
use crate::statements::{definition_stem, sql_stem};

verus! {

broadcast use vstd::seq_lib::group_filter_ensures;

/// The texts of a list of table names, in order.
pub open spec fn names_of(ts: Seq<TableName>) -> Seq<Seq<char>> {
    ts.map_values(|t: TableName| t@)
}

/// The texts of a list of strings, in order.
pub open spec fn texts_of(ss: Seq<String>) -> Seq<Seq<char>> {
    ss.map_values(|s: String| s@)
}

/// The definitions that have no table yet, in the order of the definitions.
pub open spec fn missing(defs: Seq<Seq<char>>, existing: Seq<Seq<char>>) -> Seq<Seq<char>> {
    defs.filter(|n: Seq<char>| !existing.contains(n))
}

/// The table names a directory listing defines, in listing order.
pub open spec fn stems_of(files: Seq<Seq<char>>) -> Seq<Seq<char>> {
    files.filter_map(|f: Seq<char>| sql_stem(f))
}

/// Whether every definition file in a listing has a valid table name.
pub open spec fn all_stems_valid(files: Seq<Seq<char>>) -> bool {
    forall|i: int|
        0 <= i < files.len() && #[trigger] sql_stem(files[i]) is Some ==> valid_table_name(
            sql_stem(files[i])->0,
        )
}

/// Whether every text in a list is a valid table name.
pub open spec fn all_valid(ss: Seq<Seq<char>>) -> bool {
    forall|i: int| 0 <= i < ss.len() ==> valid_table_name(#[trigger] ss[i])
}

/// Whether a list of names holds a name with the text of `t`.
pub fn contains_name(ts: &Vec<TableName>, t: &TableName) -> (r: bool)
    ensures
        r == names_of(ts@).contains(t@),
{
    let mut i: usize = 0;
    while i < ts.len()
        invariant
            i <= ts@.len(),
            forall|j: int| 0 <= j < i ==> ts@[j]@ != t@,
        decreases ts@.len() - i,
    {
        if ts[i].same_as(t) {
            assert(names_of(ts@)[i as int] == t@);
            return true;
        }
        i = i + 1;
    }
    assert forall|j: int| 0 <= j < names_of(ts@).len() implies names_of(ts@)[j] != t@ by {
        assert(names_of(ts@)[j] == ts@[j]@);
    }
    false
}

/// The tables to create: every definition whose name is not among the
/// existing tables, in the order of the definitions.
pub fn to_create(defs: &Vec<TableName>, existing: &Vec<TableName>) -> (r: Vec<TableName>)
    ensures
        names_of(r@) == missing(names_of(defs@), names_of(existing@)),
{
    let ghost e = names_of(existing@);
    let ghost p = |n: Seq<char>| !e.contains(n);
    let mut r: Vec<TableName> = Vec::new();
    let mut i: usize = 0;
    while i < defs.len()
        invariant
            i <= defs@.len(),
            names_of(r@) == names_of(defs@).take(i as int).filter(p),
            e == names_of(existing@),
            p == (|n: Seq<char>| !e.contains(n)),
        decreases defs@.len() - i,
    {
        let ghost d = names_of(defs@);
        proof {
            assert(d.take(i + 1).drop_last() == d.take(i as int));
            reveal(Seq::filter);
        }
        if !contains_name(existing, &defs[i]) {
            let t = defs[i].duplicate();
            r.push(t);
            assert(names_of(r@) == names_of(r@).drop_last().push(t@));
        }
        i = i + 1;
    }
    assert(names_of(defs@).take(defs@.len() as int) == names_of(defs@));
    r
}

/// The tables to drop: every existing table, in catalog order.
pub fn to_drop(existing: &Vec<TableName>) -> (r: Vec<TableName>)
    ensures
        names_of(r@) == names_of(existing@),
{
    let mut r: Vec<TableName> = Vec::new();
    let mut i: usize = 0;
    while i < existing.len()
        invariant
            i <= existing@.len(),
            r@.len() == i,
            names_of(r@) == names_of(existing@).take(i as int),
        decreases existing@.len() - i,
    {
        let ghost before = r@;
        let t = existing[i].duplicate();
        r.push(t);
        assert forall|j: int| 0 <= j < i + 1 implies #[trigger] names_of(r@)[j] == names_of(
            existing@,
        ).take(i + 1)[j] by {
            if j < i {
                assert(r@[j] == before[j]);
                assert(names_of(before)[j] == names_of(existing@).take(i as int)[j]);
            }
        }
        assert(names_of(r@) =~= names_of(existing@).take(i + 1));
        i = i + 1;
    }
    assert(names_of(existing@).take(existing@.len() as int) == names_of(existing@));
    r
}

/// Turns table names read from the catalog into checked names; refuses the
/// whole list when one of them breaks the naming rules.
pub fn parse_names(texts: &Vec<String>) -> (r: Result<Vec<TableName>, NameError>)
    ensures
        r is Ok <==> all_valid(texts_of(texts@)),
        r matches Ok(ts) ==> names_of(ts@) == texts_of(texts@),
        r matches Err(NameError::Invalid { text }) ==> texts_of(texts@).contains(text@)
            && !valid_table_name(text@),
{
    let mut r: Vec<TableName> = Vec::new();
    let mut i: usize = 0;
    while i < texts.len()
        invariant
            i <= texts@.len(),
            r@.len() == i,
            names_of(r@) == texts_of(texts@).take(i as int),
            all_valid(texts_of(texts@).take(i as int)),
        decreases texts@.len() - i,
    {
        match TableName::parse(texts[i].as_str()) {
            Ok(t) => {
                let ghost before = r@;
                r.push(t);
                assert forall|j: int| 0 <= j < i + 1 implies #[trigger] names_of(r@)[j]
                    == texts_of(texts@).take(i + 1)[j] by {
                    if j < i {
                        assert(r@[j] == before[j]);
                        assert(names_of(before)[j] == texts_of(texts@).take(i as int)[j]);
                    }
                }
                assert(names_of(r@) =~= texts_of(texts@).take(i + 1));
                assert(all_valid(texts_of(texts@).take(i + 1))) by {
                    assert forall|j: int| 0 <= j < i + 1 implies valid_table_name(
                        #[trigger] texts_of(texts@).take(i + 1)[j],
                    ) by {
                        if j < i {
                            assert(texts_of(texts@).take(i + 1)[j] == texts_of(texts@).take(
                                i as int,
                            )[j]);
                        }
                    }
                }
            },
            Err(e) => {
                assert(texts_of(texts@)[i as int] == texts@[i as int]@);
                return Err(e);
            },
        }
        i = i + 1;
    }
    assert(texts_of(texts@).take(texts@.len() as int) == texts_of(texts@));
    Ok(r)
}

/// Reads a directory listing: every file with the definition extension names
/// one table by its stem; other files are skipped. A definition whose stem
/// breaks the naming rules refuses the whole listing.
pub fn definition_names(files: &Vec<String>) -> (r: Result<Vec<TableName>, NameError>)
    ensures
        r is Ok <==> all_stems_valid(texts_of(files@)),
        r matches Ok(ts) ==> names_of(ts@) == stems_of(texts_of(files@)),
        r matches Err(NameError::Invalid { text }) ==> stems_of(texts_of(files@)).contains(text@)
            && !valid_table_name(text@),
{
    let ghost fs = texts_of(files@);
    let ghost f = |x: Seq<char>| sql_stem(x);
    let mut r: Vec<TableName> = Vec::new();
    let mut i: usize = 0;
    while i < files.len()
        invariant
            i <= files@.len(),
            fs == texts_of(files@),
            f == (|x: Seq<char>| sql_stem(x)),
            names_of(r@) == fs.take(i as int).filter_map(f),
            all_stems_valid(fs.take(i as int)),
        decreases files@.len() - i,
    {
        proof {
            fs.lemma_filter_map_take_succ(f, i as int);
            assert(fs[i as int] == files@[i as int]@);
        }
        match definition_stem(files[i].as_str()) {
            Some(stem) => {
                match TableName::parse(stem) {
                    Ok(t) => {
                        r.push(t);
                        assert(names_of(r@) =~= fs.take(i + 1).filter_map(f));
                    },
                    Err(e) => {
                        proof {
                            let k = i as int;
                            fs.take(k + 1).lemma_filter_map_take_succ(f, k);
                            assert(fs.take(k + 1).take(k + 1) == fs.take(k + 1));
                            assert(fs.take(k + 1).filter_map(f).contains(stem@)) by {
                                let s = fs.take(k + 1).filter_map(f);
                                assert(s[s.len() - 1] == stem@);
                            }
                            lemma_take_filter_map_contains(fs, f, k + 1, stem@);
                        }
                        return Err(e);
                    },
                }
            },
            None => {
                assert(names_of(r@) =~= fs.take(i + 1).filter_map(f));
            },
        }
        assert(all_stems_valid(fs.take(i + 1))) by {
            assert forall|j: int|
                0 <= j < fs.take(i + 1).len() && #[trigger] sql_stem(
                    fs.take(i + 1)[j],
                ) is Some implies valid_table_name(sql_stem(fs.take(i + 1)[j])->0) by {
                if j < i {
                    assert(fs.take(i + 1)[j] == fs.take(i as int)[j]);
                }
            }
        }
        i = i + 1;
    }
    assert(fs.take(files@.len() as int) == fs);
    Ok(r)
}

/// An element of what a prefix keeps is kept by the whole sequence.
proof fn lemma_take_filter_map_contains(
    s: Seq<Seq<char>>,
    f: spec_fn(Seq<char>) -> Option<Seq<char>>,
    k: int,
    x: Seq<char>,
)
    requires
        0 <= k <= s.len(),
        s.take(k).filter_map(f).contains(x),
    ensures
        s.filter_map(f).contains(x),
    decreases s.len() - k,
{
    if k < s.len() {
        s.lemma_filter_map_take_succ(f, k);
        let a = s.take(k).filter_map(f);
        let j = choose|j: int| 0 <= j < a.len() && a[j] == x;
        assert(s.take(k + 1).filter_map(f)[j] == x);
        lemma_take_filter_map_contains(s, f, k + 1, x);
    } else {
        assert(s.take(k) == s);
    }
}

/// A filter that keeps nothing of `s` gives the empty sequence.
proof fn lemma_filter_none(s: Seq<Seq<char>>, p: spec_fn(Seq<char>) -> bool)
    requires
        forall|i: int| 0 <= i < s.len() ==> !p(#[trigger] s[i]),
    ensures
        s.filter(p).len() == 0,
    decreases s.len(),
{
    reveal(Seq::filter);
    if s.len() > 0 {
        lemma_filter_none(s.drop_last(), p);
    }
}

/// A filter that keeps every element of `s` gives `s` back.
proof fn lemma_filter_all(s: Seq<Seq<char>>, p: spec_fn(Seq<char>) -> bool)
    requires
        forall|i: int| 0 <= i < s.len() ==> p(#[trigger] s[i]),
    ensures
        s.filter(p) == s,
    decreases s.len(),
{
    reveal(Seq::filter);
    if s.len() > 0 {
        lemma_filter_all(s.drop_last(), p);
        assert(s.drop_last().push(s.last()) == s);
    }
}

/// The tables planned for creation never include an existing table, and with
/// no existing tables every definition is planned.
pub proof fn lemma_missing_excludes_existing(defs: Seq<Seq<char>>, existing: Seq<Seq<char>>)
    ensures
        forall|n: Seq<char>| #[trigger] missing(defs, existing).contains(n) ==> !existing.contains(n),
        existing.len() == 0 ==> missing(defs, existing) == defs,
{
    let p = |n: Seq<char>| !existing.contains(n);
    assert forall|n: Seq<char>| #[trigger] missing(defs, existing).contains(n) implies !existing.contains(n) by {
        let m = missing(defs, existing);
        let j = choose|j: int| 0 <= j < m.len() && m[j] == n;
        assert(p(m[j]));
    }
    if existing.len() == 0 {
        lemma_filter_all(defs, p);
    }
}

/// Applying is idempotent: once the missing tables exist, nothing is missing.
pub proof fn lemma_apply_idempotent(defs: Seq<Seq<char>>, existing: Seq<Seq<char>>)
    ensures
        missing(defs, existing + missing(defs, existing)).len() == 0,
{
    let m = missing(defs, existing);
    let e2 = existing + m;
    let p2 = |n: Seq<char>| !e2.contains(n);
    assert forall|i: int| 0 <= i < defs.len() implies !p2(#[trigger] defs[i]) by {
        if existing.contains(defs[i]) {
            let j = choose|j: int| 0 <= j < existing.len() && existing[j] == defs[i];
            assert(e2[j] == defs[i]);
        } else {
            assert(m.contains(defs[i]));
            let j = choose|j: int| 0 <= j < m.len() && m[j] == defs[i];
            assert(e2[existing.len() + j] == defs[i]);
        }
    }
    lemma_filter_none(defs, p2);
}

} // verus!
