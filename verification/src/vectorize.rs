//! Vectorization of raw records: each record carries four feature fields
//! (as the text they were read from) and a class label. Vectorization
//! checks every feature field against the real-number grammar, keeps the
//! rows in input order, and assigns each distinct class label an index in
//! first-seen order, producing the ordered class-name table alongside the
//! per-row class indices.
use crate::errors::CoreError;
use crate::numeral::{check_float_literal, is_float_literal};
use vstd::prelude::*;

verus! {

/// A raw ingested row: four feature fields in schema order, one label.
#[derive(Debug)]
pub struct Record {
    pub solidity: String,
    pub aspect_ratio: String,
    pub roundness: String,
    pub compactness: String,
    pub label: String,
}

/// A validated feature row, fields in the same schema order.
#[derive(Debug)]
pub struct FeatureRow {
    pub solidity: String,
    pub aspect_ratio: String,
    pub roundness: String,
    pub compactness: String,
}

/// What vectorization yields: feature rows and class indices aligned
/// row-for-row with the input, and the class-name table in assignment
/// order.
#[derive(Debug)]
pub struct Vectorized {
    pub features: Vec<FeatureRow>,
    pub labels: Vec<usize>,
    pub class_names: Vec<String>,
}

/// The four feature fields of a record, in schema order.
pub open spec fn record_fields(r: Record) -> Seq<Seq<char>> {
    seq![r.solidity@, r.aspect_ratio@, r.roundness@, r.compactness@]
}

/// The four fields of a feature row, in schema order.
pub open spec fn row_fields(r: FeatureRow) -> Seq<Seq<char>> {
    seq![r.solidity@, r.aspect_ratio@, r.roundness@, r.compactness@]
}

/// Every feature field of the record is a real-number literal.
pub open spec fn record_valid(r: Record) -> bool {
    forall|f: int| 0 <= f < 4 ==> is_float_literal(#[trigger] record_fields(r)[f])
}

/// Every record is valid.
pub open spec fn all_valid(records: Seq<Record>) -> bool {
    forall|i: int| 0 <= i < records.len() ==> record_valid(#[trigger] records[i])
}

/// The labels of the records, in row order.
pub open spec fn label_seq(records: Seq<Record>) -> Seq<Seq<char>> {
    records.map_values(|r: Record| r.label@)
}

/// The views of a vector of class names.
pub open spec fn names_view(names: Seq<String>) -> Seq<Seq<char>> {
    names.map_values(|s: String| s@)
}

/// The distinct labels of `labels`, in order of first occurrence.
pub open spec fn classes_of(labels: Seq<Seq<char>>) -> Seq<Seq<char>>
    decreases labels.len(),
{
    if labels.len() == 0 {
        Seq::empty()
    } else {
        let pre = classes_of(labels.drop_last());
        if pre.contains(labels.last()) {
            pre
        } else {
            pre.push(labels.last())
        }
    }
}

/// First position of `x` in `s` (meaningful only when `s` contains `x`).
pub open spec fn idx_of(s: Seq<Seq<char>>, x: Seq<char>) -> int
    decreases s.len(),
{
    if s.len() == 0 {
        0
    } else if s[0] == x {
        0
    } else {
        1 + idx_of(s.skip(1), x)
    }
}

/// A position holding `x` with no earlier occurrence is `idx_of`.
pub proof fn lemma_idx_of_first(s: Seq<Seq<char>>, x: Seq<char>, j: int)
    requires
        0 <= j < s.len(),
        s[j] == x,
        forall|k: int| 0 <= k < j ==> s[k] != x,
    ensures
        idx_of(s, x) == j,
    decreases s.len(),
{
    if j > 0 {
        let t = s.skip(1);
        assert forall|k: int| 0 <= k < j - 1 implies t[k] != x by {
            assert(s[k + 1] != x);
        }
        lemma_idx_of_first(t, x, j - 1);
    }
}

/// The class table never holds a label twice.
pub proof fn lemma_classes_distinct(labels: Seq<Seq<char>>)
    ensures
        forall|j: int, k: int|
            0 <= j < k < classes_of(labels).len() ==> classes_of(labels)[j] != classes_of(
                labels,
            )[k],
    decreases labels.len(),
{
    if labels.len() > 0 {
        lemma_classes_distinct(labels.drop_last());
        let pre = classes_of(labels.drop_last());
        let l = labels.last();
        if !pre.contains(l) {
            let s = pre.push(l);
            assert forall|j: int, k: int| 0 <= j < k < s.len() implies s[j] != s[k] by {
                if k == s.len() - 1 {
                    assert(s[j] == pre[j]);
                    assert(pre[j] != l);
                } else {
                    assert(s[j] == pre[j] && s[k] == pre[k]);
                }
            }
        }
    }
}

/// Vectorization succeeded exactly so: rows and fields kept in order and
/// unchanged, each row's class index the first position of its label in
/// the class table, and the table exactly the distinct labels in
/// first-seen order.
pub open spec fn vectorize_ok(records: Seq<Record>, v: Vectorized) -> bool {
    let labels = label_seq(records);
    let classes = classes_of(labels);
    &&& v.features@.len() == records.len()
    &&& forall|i: int|
        0 <= i < records.len() ==> row_fields(#[trigger] v.features@[i]) == record_fields(
            records[i],
        )
    &&& v.labels@.len() == records.len()
    &&& forall|i: int|
        0 <= i < records.len() ==> (#[trigger] v.labels@[i]) as int == idx_of(classes, labels[i])
            && v.labels@[i] < classes.len()
    &&& names_view(v.class_names@) == classes
}

/// The first feature field that is not a real-number literal sits at
/// `(row, field)`, row-major with fields in schema order.
pub open spec fn first_invalid_at(records: Seq<Record>, row: int, field: int) -> bool {
    &&& 0 <= row < records.len()
    &&& 0 <= field < 4
    &&& !is_float_literal(record_fields(records[row])[field])
    &&& forall|f: int| 0 <= f < field ==> is_float_literal(#[trigger] record_fields(records[row])[f])
    &&& forall|i: int| 0 <= i < row ==> record_valid(#[trigger] records[i])
}

/// Vectorization is a function of the input records alone: two results
/// for the same record sequence agree on every component — the feature
/// fields row for row, the class indices, and the class-name table.
pub proof fn lemma_vectorize_deterministic(records: Seq<Record>, v1: Vectorized, v2: Vectorized)
    requires
        vectorize_ok(records, v1),
        vectorize_ok(records, v2),
    ensures
        v1.features@.len() == v2.features@.len(),
        forall|i: int|
            0 <= i < records.len() ==> row_fields(#[trigger] v1.features@[i]) == row_fields(
                v2.features@[i],
            ),
        v1.labels@ == v2.labels@,
        names_view(v1.class_names@) == names_view(v2.class_names@),
{
    assert forall|i: int| 0 <= i < records.len() implies #[trigger] v1.labels@[i]
        == v2.labels@[i] by {
        assert(v1.labels@[i] as int == idx_of(classes_of(label_seq(records)), label_seq(records)[i]));
        assert(v2.labels@[i] as int == idx_of(classes_of(label_seq(records)), label_seq(records)[i]));
    }
    assert(v1.labels@ =~= v2.labels@);
}

fn check_record(rec: &Record) -> (r: Option<usize>)
    ensures
        match r {
            None => record_valid(*rec),
            Some(f) => {
                &&& f < 4
                &&& !is_float_literal(record_fields(*rec)[f as int])
                &&& forall|g: int|
                    0 <= g < f ==> is_float_literal(#[trigger] record_fields(*rec)[g])
            },
        },
{
    proof {
        assert(record_fields(*rec)[0] == rec.solidity@);
        assert(record_fields(*rec)[1] == rec.aspect_ratio@);
        assert(record_fields(*rec)[2] == rec.roundness@);
        assert(record_fields(*rec)[3] == rec.compactness@);
    }
    if !check_float_literal(rec.solidity.as_str()) {
        return Some(0);
    }
    if !check_float_literal(rec.aspect_ratio.as_str()) {
        return Some(1);
    }
    if !check_float_literal(rec.roundness.as_str()) {
        return Some(2);
    }
    if !check_float_literal(rec.compactness.as_str()) {
        return Some(3);
    }
    proof {
        assert forall|f: int| 0 <= f < 4 implies is_float_literal(
            #[trigger] record_fields(*rec)[f],
        ) by {
            if f == 0 {
            } else if f == 1 {
            } else if f == 2 {
            } else {
                assert(f == 3);
            }
        }
    }
    None
}

fn find_class(names: &Vec<String>, label: &String) -> (r: Option<usize>)
    ensures
        match r {
            Some(j) => {
                &&& j < names@.len()
                &&& names@[j as int]@ == label@
                &&& forall|k: int| 0 <= k < j ==> (#[trigger] names@[k])@ != label@
            },
            None => forall|k: int| 0 <= k < names@.len() ==> (#[trigger] names@[k])@ != label@,
        },
{
    let mut k: usize = 0;
    while k < names.len()
        invariant
            k <= names@.len(),
            forall|k2: int| 0 <= k2 < k ==> (#[trigger] names@[k2])@ != label@,
        decreases names@.len() - k,
    {
        if names[k] == *label {
            return Some(k);
        }
        k = k + 1;
    }
    None
}

/// Turn raw records into feature rows, class indices and the class-name
/// table; reject the whole input at the first feature field that is not a
/// real-number literal, returning nothing partial.
pub fn vectorize(records: &Vec<Record>) -> (r: Result<Vectorized, CoreError>)
    ensures
        match r {
            Ok(v) => all_valid(records@) && vectorize_ok(records@, v),
            Err(e) => match e {
                CoreError::ParseError { row, field } => first_invalid_at(
                    records@,
                    row as int,
                    field as int,
                ),
                CoreError::DataError => false,
            },
        },
{
    let ghost labs = label_seq(records@);
    let mut i: usize = 0;
    while i < records.len()
        invariant
            i <= records@.len(),
            forall|j: int| 0 <= j < i ==> record_valid(#[trigger] records@[j]),
        decreases records@.len() - i,
    {
        match check_record(&records[i]) {
            None => {},
            Some(f) => {
                return Err(CoreError::ParseError { row: i, field: f });
            },
        }
        i = i + 1;
    }
    let mut features: Vec<FeatureRow> = Vec::new();
    let mut labels: Vec<usize> = Vec::new();
    let mut class_names: Vec<String> = Vec::new();
    let mut i: usize = 0;
    while i < records.len()
        invariant
            i <= records@.len(),
            labs == label_seq(records@),
            features@.len() == i,
            labels@.len() == i,
            forall|j: int|
                0 <= j < i ==> row_fields(#[trigger] features@[j]) == record_fields(records@[j]),
            names_view(class_names@) =~= classes_of(labs.take(i as int)),
            forall|j: int|
                0 <= j < i ==> {
                    &&& (#[trigger] labels@[j]) < class_names@.len()
                    &&& class_names@[labels@[j] as int]@ == labs[j]
                    &&& forall|k: int| 0 <= k < labels@[j] ==> (#[trigger] class_names@[k])@ != labs[j]
                },
        decreases records@.len() - i,
    {
        let rec = &records[i];
        let row = FeatureRow {
            solidity: rec.solidity.clone(),
            aspect_ratio: rec.aspect_ratio.clone(),
            roundness: rec.roundness.clone(),
            compactness: rec.compactness.clone(),
        };
        proof {
            assert(row_fields(row) =~= record_fields(records@[i as int]));
            assert(labs.take(i as int + 1).drop_last() =~= labs.take(i as int));
            assert(labs.take(i as int + 1).last() == labs[i as int]);
        }
        features.push(row);
        let idx: usize;
        match find_class(&class_names, &rec.label) {
            Some(j) => {
                idx = j;
                proof {
                    let cls = names_view(class_names@);
                    assert(cls[j as int] == labs[i as int]);
                    assert(cls.contains(labs[i as int]));
                    assert(classes_of(labs.take(i as int + 1)) =~= cls);
                }
            },
            None => {
                idx = class_names.len();
                proof {
                    let cls = names_view(class_names@);
                    assert forall|w: int| 0 <= w < cls.len() implies cls[w] != labs[i as int] by {
                        assert((class_names@[w])@ != labs[i as int]);
                    }
                    assert(!cls.contains(labs[i as int]));
                }
                class_names.push(rec.label.clone());
                proof {
                    assert(names_view(class_names@) =~= classes_of(labs.take(i as int + 1)));
                }
            },
        }
        labels.push(idx);
        i = i + 1;
    }
    proof {
        assert(labs.take(records@.len() as int) =~= labs);
        let classes = classes_of(labs);
        assert(names_view(class_names@) =~= classes);
        assert forall|j: int| 0 <= j < records@.len() implies (#[trigger] labels@[j]) as int
            == idx_of(classes, labs[j]) && labels@[j] < classes.len() by {
            lemma_idx_of_first(classes, labs[j], labels@[j] as int);
        }
    }
    Ok(Vectorized { features, labels, class_names })
}

} // verus!
