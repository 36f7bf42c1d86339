//! The files of a directory as the library receives them, and the order in
//! which a collection takes them: by name, byte by byte.

use vstd::prelude::*;
use vstd::string::StringSliceAdditionalSpecFns;
use vstd::utf8::encode_utf8;

verus! {

/// One file of a directory: its name, and its text or the reason why it
/// could not be read. What a directory holds beside files, such as a
/// directory below it, comes in as a file that could not be read.
#[derive(Debug, PartialEq)]
pub struct SourceFile {
    /// The name by which the files are ordered and by which errors tell
    /// the file: its path, or its name in the directory.
    pub name: String,
    /// The text of the file, or the reason why there is none.
    pub content: Result<String, String>,
}

/// Lexicographic order on byte strings: at the first place where the two
/// differ the smaller byte decides, and a prefix comes before what extends it.
pub open spec fn bytes_le(a: Seq<u8>, b: Seq<u8>) -> bool
    decreases a.len(),
{
    if a.len() == 0 {
        true
    } else if b.len() == 0 {
        false
    } else if a[0] != b[0] {
        a[0] < b[0]
    } else {
        bytes_le(a.drop_first(), b.drop_first())
    }
}

/// The order of file names: that of their UTF-8 bytes.
pub open spec fn name_le(a: Seq<char>, b: Seq<char>) -> bool {
    bytes_le(encode_utf8(a), encode_utf8(b))
}

/// Whether each file of `files` is named no later than all that follow it.
pub open spec fn ordered(files: Seq<SourceFile>) -> bool {
    forall|i: int, j: int|
        0 <= i < j < files.len() ==> name_le(#[trigger] files[i].name@, #[trigger] files[j].name@)
}

/// `sorted` with `file` put in front of the first file that is named no
/// earlier than it.
pub open spec fn placed(file: SourceFile, sorted: Seq<SourceFile>) -> Seq<SourceFile>
    decreases sorted.len(),
{
    if sorted.len() == 0 || name_le(file.name@, sorted[0].name@) {
        seq![file] + sorted
    } else {
        seq![sorted[0]] + placed(file, sorted.drop_first())
    }
}

/// The files in name order; files of one name stay in the order they came in.
pub open spec fn in_name_order(files: Seq<SourceFile>) -> Seq<SourceFile>
    decreases files.len(),
{
    if files.len() == 0 {
        Seq::empty()
    } else {
        placed(files[0], in_name_order(files.drop_first()))
    }
}

/// Of two byte strings one is no later than the other.
pub proof fn lemma_bytes_le_total(a: Seq<u8>, b: Seq<u8>)
    ensures
        bytes_le(a, b) || bytes_le(b, a),
    decreases a.len(),
{
    if a.len() > 0 && b.len() > 0 && a[0] == b[0] {
        lemma_bytes_le_total(a.drop_first(), b.drop_first());
    }
}

/// The byte order is transitive.
pub proof fn lemma_bytes_le_transitive(a: Seq<u8>, b: Seq<u8>, c: Seq<u8>)
    requires
        bytes_le(a, b),
        bytes_le(b, c),
    ensures
        bytes_le(a, c),
    decreases a.len(),
{
    if a.len() > 0 && b.len() > 0 && c.len() > 0 && a[0] == b[0] && b[0] == c[0] {
        lemma_bytes_le_transitive(a.drop_first(), b.drop_first(), c.drop_first());
    }
}

/// Every byte string is no later than itself.
pub proof fn lemma_bytes_le_reflexive(a: Seq<u8>)
    ensures
        bytes_le(a, a),
    decreases a.len(),
{
    if a.len() > 0 {
        lemma_bytes_le_reflexive(a.drop_first());
    }
}

/// Placing a file lengthens the sequence by one and keeps every file.
pub proof fn lemma_placed_holds(file: SourceFile, sorted: Seq<SourceFile>)
    ensures
        placed(file, sorted).len() == sorted.len() + 1,
        placed(file, sorted).to_multiset() == sorted.to_multiset().insert(file),
    decreases sorted.len(),
{
    broadcast use vstd::seq_lib::group_to_multiset_ensures;

    if sorted.len() == 0 || name_le(file.name@, sorted[0].name@) {
        assert(seq![file] + sorted =~= sorted.insert(0, file));
    } else {
        let rest = sorted.drop_first();
        lemma_placed_holds(file, rest);
        let tail = placed(file, rest);
        assert(seq![sorted[0]] + tail =~= tail.insert(0, sorted[0]));
        assert(sorted =~= rest.insert(0, sorted[0]));
    }
}

/// Placing a file into an ordered sequence leaves it ordered.
pub proof fn lemma_placed_ordered(file: SourceFile, sorted: Seq<SourceFile>)
    requires
        ordered(sorted),
    ensures
        ordered(placed(file, sorted)),
        forall|k: int|
            0 <= k < placed(file, sorted).len() ==> (#[trigger] placed(file, sorted)[k]) == file || (
            exists|m: int| 0 <= m < sorted.len() && sorted[m] == placed(file, sorted)[k]),
    decreases sorted.len(),
{
    let out = placed(file, sorted);
    if sorted.len() == 0 {
    } else if name_le(file.name@, sorted[0].name@) {
        assert forall|i: int, j: int| 0 <= i < j < out.len() implies name_le(
            #[trigger] out[i].name@,
            #[trigger] out[j].name@,
        ) by {
            if i == 0 {
                assert(out[j] == sorted[j - 1]);
                if j > 1 {
                    lemma_bytes_le_transitive(
                        encode_utf8(file.name@),
                        encode_utf8(sorted[0].name@),
                        encode_utf8(sorted[j - 1].name@),
                    );
                }
            } else {
                assert(out[i] == sorted[i - 1]);
                assert(out[j] == sorted[j - 1]);
            }
        }
        assert forall|k: int| 0 <= k < out.len() implies (#[trigger] out[k]) == file || (exists|
            m: int,
        | 0 <= m < sorted.len() && sorted[m] == out[k]) by {
            if k > 0 {
                assert(sorted[k - 1] == out[k]);
            }
        }
    } else {
        let rest = sorted.drop_first();
        assert forall|i: int, j: int| 0 <= i < j < rest.len() implies name_le(
            #[trigger] rest[i].name@,
            #[trigger] rest[j].name@,
        ) by {
            assert(rest[i] == sorted[i + 1]);
            assert(rest[j] == sorted[j + 1]);
        }
        lemma_placed_ordered(file, rest);
        let tail = placed(file, rest);
        lemma_bytes_le_total(encode_utf8(file.name@), encode_utf8(sorted[0].name@));
        assert forall|k: int| 0 <= k < tail.len() implies name_le(
            sorted[0].name@,
            (#[trigger] tail[k]).name@,
        ) by {
            if tail[k] != file {
                let m = choose|m: int| 0 <= m < rest.len() && rest[m] == tail[k];
                assert(rest[m] == sorted[m + 1]);
            }
        }
        assert forall|i: int, j: int| 0 <= i < j < out.len() implies name_le(
            #[trigger] out[i].name@,
            #[trigger] out[j].name@,
        ) by {
            assert(out[j] == tail[j - 1]);
            if i > 0 {
                assert(out[i] == tail[i - 1]);
            }
        }
        assert forall|k: int| 0 <= k < out.len() implies (#[trigger] out[k]) == file || (exists|
            m: int,
        | 0 <= m < sorted.len() && sorted[m] == out[k]) by {
            if k > 0 {
                assert(out[k] == tail[k - 1]);
                if tail[k - 1] != file {
                    let m = choose|m: int| 0 <= m < rest.len() && rest[m] == tail[k - 1];
                    assert(sorted[m + 1] == out[k]);
                }
            }
        }
    }
}

/// The name order keeps every file, each as often as it came in.
pub proof fn lemma_name_order_keeps(files: Seq<SourceFile>)
    ensures
        in_name_order(files).len() == files.len(),
        in_name_order(files).to_multiset() == files.to_multiset(),
    decreases files.len(),
{
    broadcast use vstd::seq_lib::group_to_multiset_ensures;

    if files.len() > 0 {
        let rest = files.drop_first();
        lemma_name_order_keeps(rest);
        lemma_placed_holds(files[0], in_name_order(rest));
        assert(files =~= rest.insert(0, files[0]));
    } else {
        assert(files =~= Seq::<SourceFile>::empty());
    }
}

/// The name order is ordered by name.
pub proof fn lemma_name_order_ordered(files: Seq<SourceFile>)
    ensures
        ordered(in_name_order(files)),
    decreases files.len(),
{
    if files.len() > 0 {
        lemma_name_order_ordered(files.drop_first());
        lemma_placed_ordered(files[0], in_name_order(files.drop_first()));
    }
}

/// Files that come in ordered by name stay as they are.
pub proof fn lemma_name_order_fixes_ordered(files: Seq<SourceFile>)
    requires
        ordered(files),
    ensures
        in_name_order(files) == files,
    decreases files.len(),
{
    if files.len() > 0 {
        let rest = files.drop_first();
        assert forall|i: int, j: int| 0 <= i < j < rest.len() implies name_le(
            #[trigger] rest[i].name@,
            #[trigger] rest[j].name@,
        ) by {
            assert(rest[i] == files[i + 1]);
            assert(rest[j] == files[j + 1]);
        }
        lemma_name_order_fixes_ordered(rest);
        if rest.len() > 0 {
            assert(rest[0] == files[1]);
        }
        assert(seq![files[0]] + rest =~= files);
    } else {
        assert(files =~= Seq::<SourceFile>::empty());
    }
}

/// Whether the bytes `a` come no later than the bytes `b`.
pub fn bytes_no_later(a: &[u8], b: &[u8]) -> (le: bool)
    ensures
        le == bytes_le(a@, b@),
{
    let mut i: usize = 0;
    proof {
        assert(a@.skip(0) =~= a@);
        assert(b@.skip(0) =~= b@);
    }
    while i < a.len() && i < b.len()
        invariant
            i <= a.len(),
            i <= b.len(),
            bytes_le(a@, b@) == bytes_le(a@.skip(i as int), b@.skip(i as int)),
        decreases a.len() - i,
    {
        proof {
            assert(a@.skip(i as int).drop_first() =~= a@.skip(i + 1));
            assert(b@.skip(i as int).drop_first() =~= b@.skip(i + 1));
        }
        if a[i] != b[i] {
            return a[i] < b[i];
        }
        i += 1;
    }
    i == a.len()
}

/// Whether a file named `a` comes no later than one named `b`.
pub fn name_no_later(a: &str, b: &str) -> (le: bool)
    ensures
        le == name_le(a@, b@),
{
    bytes_no_later(a.as_bytes(), b.as_bytes())
}

/// Puts the files in name order.
pub fn sort_by_name(files: Vec<SourceFile>) -> (sorted: Vec<SourceFile>)
    ensures
        sorted@ == in_name_order(files@),
        sorted@.len() == files@.len(),
        sorted@.to_multiset() == files@.to_multiset(),
        ordered(sorted@),
{
    let ghost all = files@;
    let mut rest = files;
    let mut sorted: Vec<SourceFile> = Vec::new();
    proof {
        assert(all.skip(all.len() as int) =~= Seq::<SourceFile>::empty());
    }
    while rest.len() > 0
        invariant
            rest@ == all.take(rest@.len() as int),
            rest@.len() <= all.len(),
            sorted@ == in_name_order(all.skip(rest@.len() as int)),
        decreases rest@.len(),
    {
        let ghost before = rest@.len() as int;
        let file = rest.pop().unwrap();
        let ghost tail = sorted@;
        let mut at: usize = 0;
        proof {
            assert(tail.skip(0) =~= tail);
            assert(tail.take(0) + placed(file, tail) =~= placed(file, tail));
        }
        while at < sorted.len() && !name_no_later(file.name.as_str(), sorted[at].name.as_str())
            invariant
                at <= sorted.len(),
                sorted@ == tail,
                placed(file, tail) == tail.take(at as int) + placed(file, tail.skip(at as int)),
            decreases sorted.len() - at,
        {
            proof {
                let here = tail.skip(at as int);
                assert(here.drop_first() =~= tail.skip(at + 1));
                assert(tail.take(at as int) + (seq![here[0]] + placed(file, here.drop_first()))
                    =~= tail.take(at + 1) + placed(file, tail.skip(at + 1)));
            }
            at += 1;
        }
        proof {
            let here = tail.skip(at as int);
            assert(placed(file, here) == seq![file] + here);
            assert(tail.take(at as int) + (seq![file] + here) =~= tail.insert(at as int, file));
            assert(all.skip(before - 1).drop_first() =~= all.skip(before));
            assert(all.skip(before - 1)[0] == file);
            assert(rest@ =~= all.take(before - 1));
        }
        sorted.insert(at, file);
    }
    proof {
        assert(all.skip(0) =~= all);
        lemma_name_order_keeps(all);
        lemma_name_order_ordered(all);
    }
    sorted
}

} // verus!
