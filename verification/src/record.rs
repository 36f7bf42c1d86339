//! What the record kinds have in common: each is read out of a document
//! tree, and a collection of any kind is loaded from files in the same way.

use crate::error::{Flaw, LoadError, ParseError};
use crate::source::{
    in_name_order, lemma_name_order_keeps, lemma_name_order_ordered, ordered, sort_by_name,
    SourceFile,
};
use crate::tree::{put, Node, Pair, Tree};
use crate::yaml::{read_tree, write_tree, yaml_fault, yaml_text, yaml_tree};
use vstd::prelude::*;

verus! {

/// A kind of record that documents hold.
pub trait Record: View + Sized {
    /// The record that `tree` holds, or why it holds none.
    spec fn decoded(tree: Tree) -> Result<Self::V, Flaw>;

    /// The tree that holds `record`.
    spec fn encoded(record: Self::V) -> Tree;

    /// What is written can be read, and is then what it was.
    proof fn round_trip(record: Self::V)
        ensures
            Self::decoded(Self::encoded(record)) == Ok::<Self::V, Flaw>(record),
    ;

    /// Reads the record out of `node`.
    fn from_tree(node: &Node) -> (read: Result<Self, Flaw>)
        ensures
            match read {
                Ok(record) => Self::decoded(node@) == Ok::<Self::V, Flaw>(record@),
                Err(flaw) => Self::decoded(node@) == Err::<Self::V, Flaw>(flaw),
            },
    ;

    /// Writes the record into a tree.
    fn to_tree(&self) -> (node: Node)
        ensures
            node@ == Self::encoded(self@),
    ;
}

/// Why a file yields no record.
pub enum Fault {
    /// The file could not be read, for this reason.
    Unreadable(Seq<char>),
    /// The text is not YAML, as this message says.
    Unparsable(Seq<char>),
    /// The document does not fit the record.
    Flawed(Flaw),
}

/// What is told of a document that does not fit the record.
pub open spec fn malformed_cause() -> Seq<char> {
    "a field is missing or holds a value of the wrong kind"@
}

/// The record of kind `R` in `file`, or why the file yields none.
pub open spec fn record_in<R: Record>(file: SourceFile) -> Result<R::V, Fault> {
    match file.content {
        Err(cause) => Err(Fault::Unreadable(cause@)),
        Ok(text) => match yaml_tree(text@) {
            None => Err(Fault::Unparsable(yaml_fault(text@))),
            Some(tree) => match R::decoded(tree) {
                Ok(record) => Ok(record),
                Err(flaw) => Err(Fault::Flawed(flaw)),
            },
        },
    }
}

/// Whether `error` is the report of `fault` in the file named `name`.
pub open spec fn reports(error: LoadError, name: Seq<char>, fault: Fault) -> bool {
    match fault {
        Fault::Unreadable(cause) => error matches LoadError::Io { path, cause: told }
            && path@ == name && told@ == cause,
        Fault::Unparsable(message) => error matches LoadError::Parse { path, cause } && path@
            == name && cause@ == message,
        Fault::Flawed(Flaw::Malformed) => error matches LoadError::Parse { path, cause } && path@
            == name && cause@ == malformed_cause(),
        Fault::Flawed(Flaw::Unsupported(version)) => error matches LoadError::Migration {
            path,
            version: told,
        } && path@ == name && told == version,
    }
}

/// The views of the records of a vector.
pub open spec fn views<R: View>(records: Seq<R>) -> Seq<R::V> {
    Seq::new(records.len(), |i: int| records[i]@)
}

/// What loading `files` as records of kind `R` comes to: the records of
/// the files taken in name order, or the fault of the first file in that
/// order that has one, with the file's name.
pub open spec fn loaded<R: Record>(files: Seq<SourceFile>) -> Result<Seq<R::V>, (Seq<char>, Fault)> {
    let sorted = in_name_order(files);
    if forall|i: int| 0 <= i < sorted.len() ==> (#[trigger] record_in::<R>(sorted[i])) is Ok {
        Ok(Seq::new(sorted.len(), |i: int| record_in::<R>(sorted[i])->Ok_0))
    } else {
        let first = choose|i: int|
            0 <= i < sorted.len() && (#[trigger] record_in::<R>(sorted[i])) is Err && forall|j: int|
                0 <= j < i ==> (#[trigger] record_in::<R>(sorted[j])) is Ok;
        Err((sorted[first].name@, record_in::<R>(sorted[first])->Err_0))
    }
}

/// Loads the records of kind `R` that `files` hold: takes the files in
/// name order and reads one record out of each. The first file that cannot
/// be read, is not YAML or does not fit the record ends the load with its
/// error.
pub fn load_records<R: Record>(files: Vec<SourceFile>) -> (result: Result<Vec<R>, LoadError>)
    ensures
        match result {
            Ok(records) => loaded::<R>(files@) == Ok::<Seq<R::V>, (Seq<char>, Fault)>(
                views(records@),
            ),
            Err(error) => loaded::<R>(files@) matches Err((name, fault)) && reports(
                error,
                name,
                fault,
            ),
        },
{
    let sorted = sort_by_name(files);
    let mut records: Vec<R> = Vec::new();
    let mut i: usize = 0;
    while i < sorted.len()
        invariant
            i <= sorted.len(),
            sorted@ == in_name_order(files@),
            records.len() == i,
            forall|j: int|
                0 <= j < i ==> (#[trigger] record_in::<R>(sorted@[j])) == Ok::<R::V, Fault>(
                    records@[j]@,
                ),
        decreases sorted.len() - i,
    {
        let file = &sorted[i];
        let failed: Option<LoadError> = match &file.content {
            Err(cause) => Some(LoadError::Io { path: file.name.clone(), cause: cause.clone() }),
            Ok(text) => match read_tree(text.as_str()) {
                Err(message) => Some(LoadError::Parse { path: file.name.clone(), cause: message }),
                Ok(node) => match R::from_tree(&node) {
                    Ok(record) => {
                        records.push(record);
                        None
                    },
                    Err(Flaw::Malformed) => Some(
                        LoadError::Parse { path: file.name.clone(), cause: malformed() },
                    ),
                    Err(Flaw::Unsupported(version)) => Some(
                        LoadError::Migration { path: file.name.clone(), version },
                    ),
                },
            },
        };
        if let Some(error) = failed {
            proof {
                lemma_first_fault::<R>(sorted@, i as int);
            }
            return Err(error);
        }
        i += 1;
    }
    proof {
        assert(loaded::<R>(files@)->Ok_0 =~= views(records@));
    }
    Ok(records)
}

/// The file at `at` is the first with a fault: what [`loaded`] reports is
/// its fault.
proof fn lemma_first_fault<R: Record>(sorted: Seq<SourceFile>, at: int)
    requires
        0 <= at < sorted.len(),
        record_in::<R>(sorted[at]) is Err,
        forall|j: int| 0 <= j < at ==> (#[trigger] record_in::<R>(sorted[j])) is Ok,
    ensures
        ({
            let first = choose|i: int|
                0 <= i < sorted.len() && (#[trigger] record_in::<R>(sorted[i])) is Err && forall|
                    j: int,
                | 0 <= j < i ==> (#[trigger] record_in::<R>(sorted[j])) is Ok;
            first == at
        }),
        !(forall|i: int| 0 <= i < sorted.len() ==> (#[trigger] record_in::<R>(sorted[i])) is Ok),
{
    let first = choose|i: int|
        0 <= i < sorted.len() && (#[trigger] record_in::<R>(sorted[i])) is Err && forall|j: int|
            0 <= j < i ==> (#[trigger] record_in::<R>(sorted[j])) is Ok;
    assert(record_in::<R>(sorted[first]) is Err);
    if first < at {
        assert(record_in::<R>(sorted[first]) is Ok);
    }
    if at < first {
        assert(record_in::<R>(sorted[at]) is Ok);
    }
}

/// What is told of a document that does not fit the record.
fn malformed() -> (cause: String)
    ensures
        cause@ == malformed_cause(),
{
    "a field is missing or holds a value of the wrong kind".to_owned()
}

/// Every file holds a record: the load gives one record for each file,
/// and they stand in the order of the files' names.
pub proof fn lemma_loaded_all<R: Record>(files: Seq<SourceFile>)
    requires
        forall|i: int| 0 <= i < files.len() ==> (#[trigger] record_in::<R>(files[i])) is Ok,
    ensures
        loaded::<R>(files) is Ok,
        loaded::<R>(files)->Ok_0.len() == files.len(),
        ordered(in_name_order(files)),
        forall|i: int|
            0 <= i < files.len() ==> record_in::<R>(#[trigger] in_name_order(files)[i]) == Ok::<
                R::V,
                Fault,
            >(loaded::<R>(files)->Ok_0[i]),
{
    broadcast use vstd::seq_lib::group_to_multiset_ensures;

    let sorted = in_name_order(files);
    lemma_name_order_keeps(files);
    lemma_name_order_ordered(files);
    assert forall|i: int| 0 <= i < sorted.len() implies (#[trigger] record_in::<R>(sorted[i]))
        is Ok by {
        assert(sorted.to_multiset().count(sorted[i]) > 0);
        assert(files.contains(sorted[i]));
        let k = choose|k: int| 0 <= k < files.len() && files[k] == sorted[i];
        assert(record_in::<R>(files[k]) is Ok);
    }
}

/// One file alone has a fault: the load fails with that fault and names
/// that file.
pub proof fn lemma_loaded_one_fault<R: Record>(files: Seq<SourceFile>, bad: int)
    requires
        0 <= bad < files.len(),
        record_in::<R>(files[bad]) is Err,
        forall|i: int|
            0 <= i < files.len() && i != bad ==> (#[trigger] record_in::<R>(files[i])) is Ok,
    ensures
        loaded::<R>(files) == Err::<Seq<R::V>, (Seq<char>, Fault)>(
            (files[bad].name@, record_in::<R>(files[bad])->Err_0),
        ),
{
    broadcast use vstd::seq_lib::group_to_multiset_ensures;

    let sorted = in_name_order(files);
    lemma_name_order_keeps(files);
    assert(files.to_multiset().count(files[bad]) > 0);
    assert(sorted.contains(files[bad]));
    let at = choose|at: int| 0 <= at < sorted.len() && sorted[at] == files[bad];
    assert(record_in::<R>(sorted[at]) is Err);
    let first = lemma_some_first_fault::<R>(sorted, at);
    lemma_first_fault::<R>(sorted, first);
    assert(sorted.to_multiset().count(sorted[first]) > 0);
    assert(files.contains(sorted[first]));
    let k = choose|k: int| 0 <= k < files.len() && files[k] == sorted[first];
    if k != bad {
        assert(record_in::<R>(files[k]) is Ok);
    }
}

/// Where a file has a fault, some file is the first to have one.
proof fn lemma_some_first_fault<R: Record>(sorted: Seq<SourceFile>, at: int) -> (first: int)
    requires
        0 <= at < sorted.len(),
        record_in::<R>(sorted[at]) is Err,
    ensures
        0 <= first <= at,
        record_in::<R>(sorted[first]) is Err,
        forall|j: int| 0 <= j < first ==> (#[trigger] record_in::<R>(sorted[j])) is Ok,
    decreases at,
{
    if exists|j: int| 0 <= j < at && (#[trigger] record_in::<R>(sorted[j])) is Err {
        let j = choose|j: int| 0 <= j < at && (#[trigger] record_in::<R>(sorted[j])) is Err;
        lemma_some_first_fault::<R>(sorted, j)
    } else {
        at
    }
}

/// Reads a record out of the text of a document.
pub fn parse<R: Record>(text: &str) -> (read: Result<R, ParseError>)
    ensures
        match read {
            Ok(record) => yaml_tree(text@) matches Some(tree) && R::decoded(tree) == Ok::<
                R::V,
                Flaw,
            >(record@),
            Err(ParseError::Syntax(message)) => yaml_tree(text@) is None && message@
                == yaml_fault(text@),
            Err(ParseError::Flawed(flaw)) => yaml_tree(text@) matches Some(tree) && R::decoded(
                tree,
            ) == Err::<R::V, Flaw>(flaw),
        },
{
    match read_tree(text) {
        Err(message) => Err(ParseError::Syntax(message)),
        Ok(node) => match R::from_tree(&node) {
            Ok(record) => Ok(record),
            Err(flaw) => Err(ParseError::Flawed(flaw)),
        },
    }
}

/// Writes a record as the text of a document. `None` where the record's
/// tree cannot be written: a numeral in it is none that YAML knows.
pub fn render<R: Record>(record: &R) -> (written: Option<String>)
    ensures
        match written {
            Some(text) => yaml_text(R::encoded(record@)) == Some(text@),
            None => yaml_text(R::encoded(record@)) is None,
        },
{
    let node = record.to_tree();
    write_tree(&node)
}

/// The trees that hold `records`, one for each.
pub open spec fn encoded_all<R: Record>(records: Seq<R::V>) -> Seq<Tree> {
    Seq::new(records.len(), |i: int| R::encoded(records[i]))
}

/// The tree of a collection: a table whose one field, `key`, is the list
/// of the records.
pub open spec fn collection_tree<R: Record>(key: Seq<char>, records: Seq<R::V>) -> Tree {
    Tree::record(seq![(key, Tree::List(encoded_all::<R>(records)))])
}

/// Writes a collection into a tree.
pub fn collection_to_tree<R: Record>(key: &str, records: &Vec<R>) -> (node: Node)
    ensures
        node@ == collection_tree::<R>(key@, views(records@)),
{
    let mut nodes: Vec<Node> = Vec::new();
    let mut i: usize = 0;
    while i < records.len()
        invariant
            i <= records.len(),
            nodes.len() == i,
            forall|j: int| 0 <= j < i ==> (#[trigger] nodes@[j])@ == R::encoded(records@[j]@),
        decreases records.len() - i,
    {
        nodes.push(records[i].to_tree());
        i += 1;
    }
    let list = Node::of_items(nodes);
    assert(list@->List_0 =~= encoded_all::<R>(views(records@)));
    let mut pairs: Vec<Pair> = Vec::new();
    put(&mut pairs, key, list);
    let node = Node::of_fields(pairs);
    assert(node@->Table_0 =~= collection_tree::<R>(key@, views(records@))->Table_0);
    node
}

/// The first of `records` whose key, as `key_of` tells it, is `key`.
pub open spec fn first_keyed<V, K>(records: Seq<V>, key_of: spec_fn(V) -> K, key: K) -> Option<V>
    decreases records.len(),
{
    if records.len() == 0 {
        None
    } else if key_of(records[0]) == key {
        Some(records[0])
    } else {
        first_keyed(records.drop_first(), key_of, key)
    }
}

/// The record at `at` has the key and none before it has: it is the one
/// that a lookup finds.
pub proof fn lemma_first_keyed_at<V, K>(
    records: Seq<V>,
    key_of: spec_fn(V) -> K,
    key: K,
    at: int,
)
    requires
        0 <= at < records.len(),
        key_of(records[at]) == key,
        forall|j: int| 0 <= j < at ==> key_of(#[trigger] records[j]) != key,
    ensures
        first_keyed(records, key_of, key) == Some(records[at]),
    decreases records.len(),
{
    if at > 0 {
        let rest = records.drop_first();
        assert forall|j: int| 0 <= j < at - 1 implies key_of(#[trigger] rest[j]) != key by {
            assert(rest[j] == records[j + 1]);
        }
        lemma_first_keyed_at(rest, key_of, key, at - 1);
    }
}

/// A lookup finds nothing exactly when no record has the key.
pub proof fn lemma_first_keyed_none<V, K>(records: Seq<V>, key_of: spec_fn(V) -> K, key: K)
    ensures
        first_keyed(records, key_of, key) is None <==> forall|j: int|
            0 <= j < records.len() ==> key_of(#[trigger] records[j]) != key,
    decreases records.len(),
{
    if records.len() > 0 {
        let rest = records.drop_first();
        lemma_first_keyed_none(rest, key_of, key);
        if key_of(records[0]) != key {
            if first_keyed(rest, key_of, key) is None {
                assert forall|j: int| 0 <= j < records.len() implies key_of(
                    #[trigger] records[j],
                ) != key by {
                    if j > 0 {
                        assert(rest[j - 1] == records[j]);
                    }
                }
            } else {
                let j = choose|j: int| 0 <= j < rest.len() && key_of(#[trigger] rest[j]) == key;
                assert(records[j + 1] == rest[j]);
            }
        }
    }
}

/// What a lookup finds has the key, and stands before every other record
/// that has it.
pub proof fn lemma_first_keyed_is_first<V, K>(records: Seq<V>, key_of: spec_fn(V) -> K, key: K)
    requires
        first_keyed(records, key_of, key) is Some,
    ensures
        exists|at: int|
            0 <= at < records.len() && #[trigger] records[at] == first_keyed(
                records,
                key_of,
                key,
            )->0 && key_of(records[at]) == key && forall|j: int|
                0 <= j < at ==> key_of(#[trigger] records[j]) != key,
    decreases records.len(),
{
    if key_of(records[0]) == key {
        assert(records[0] == first_keyed(records, key_of, key)->0);
    } else {
        let rest = records.drop_first();
        lemma_first_keyed_is_first(rest, key_of, key);
        let at = choose|at: int|
            0 <= at < rest.len() && #[trigger] rest[at] == first_keyed(rest, key_of, key)->0
                && key_of(rest[at]) == key && forall|j: int|
                0 <= j < at ==> key_of(#[trigger] rest[j]) != key;
        assert(records[at + 1] == rest[at]);
        assert forall|j: int| 0 <= j < at + 1 implies key_of(#[trigger] records[j]) != key by {
            if j > 0 {
                assert(rest[j - 1] == records[j]);
            }
        }
    }
}

/// Where one record alone has the key, a lookup finds that record.
pub proof fn lemma_first_keyed_single<V, K>(
    records: Seq<V>,
    key_of: spec_fn(V) -> K,
    key: K,
    at: int,
)
    requires
        0 <= at < records.len(),
        key_of(records[at]) == key,
        forall|j: int| 0 <= j < records.len() && j != at ==> key_of(#[trigger] records[j]) != key,
    ensures
        first_keyed(records, key_of, key) == Some(records[at]),
{
    lemma_first_keyed_at(records, key_of, key, at);
}

/// What a lookup finds in a loaded collection comes from the first file,
/// in the order of the files' names, whose record has the key.
pub proof fn lemma_found_is_first_by_name<R: Record, K>(
    files: Seq<SourceFile>,
    key_of: spec_fn(R::V) -> K,
    key: K,
)
    requires
        loaded::<R>(files) is Ok,
        first_keyed(loaded::<R>(files)->Ok_0, key_of, key) is Some,
    ensures
        exists|at: int|
            0 <= at < files.len() && #[trigger] record_in::<R>(in_name_order(files)[at]) == Ok::<
                R::V,
                Fault,
            >(first_keyed(loaded::<R>(files)->Ok_0, key_of, key)->0) && forall|j: int|
                0 <= j < at ==> key_of(
                    (#[trigger] record_in::<R>(in_name_order(files)[j]))->Ok_0,
                ) != key,
{
    let sorted = in_name_order(files);
    let records = loaded::<R>(files)->Ok_0;
    lemma_name_order_keeps(files);
    lemma_first_keyed_is_first(records, key_of, key);
    let at = choose|at: int|
        0 <= at < records.len() && #[trigger] records[at] == first_keyed(records, key_of, key)->0
            && key_of(records[at]) == key && forall|j: int|
            0 <= j < at ==> key_of(#[trigger] records[j]) != key;
    assert(record_in::<R>(sorted[at]) is Ok);
    assert forall|j: int| 0 <= j < at implies key_of(
        (#[trigger] record_in::<R>(sorted[j]))->Ok_0,
    ) != key by {
        assert(records[j] == record_in::<R>(sorted[j])->Ok_0);
    }
}

} // verus!
