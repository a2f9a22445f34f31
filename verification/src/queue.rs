//! The upload queue: the image files of a directory in the order in which a
//! run takes them, oldest modification first.

use crate::files::{file_views, image_name, is_image_name, FileInfo, Instant, LocalFile};
use vstd::prelude::*;

verus! {

/// The files whose names are image names, in the order in which they stand.
pub open spec fn images(files: Seq<FileInfo>) -> Seq<FileInfo> {
    files.filter(|f: FileInfo| image_name(f.filename))
}

/// `sorted` with `f` put before the first file that is not older than `f`.
pub open spec fn insert_by_modified(sorted: Seq<FileInfo>, f: FileInfo) -> Seq<FileInfo>
    decreases sorted.len(),
{
    if sorted.len() > 0 && sorted.first().modified.before(f.modified) {
        seq![sorted.first()] + insert_by_modified(sorted.drop_first(), f)
    } else {
        seq![f] + sorted
    }
}

/// The files ordered by modification time, oldest first. Files of one
/// modification time keep the order in which they stand in `files`.
pub open spec fn by_modified(files: Seq<FileInfo>) -> Seq<FileInfo>
    decreases files.len(),
{
    if files.len() == 0 {
        Seq::empty()
    } else {
        insert_by_modified(by_modified(files.drop_first()), files.first())
    }
}

/// No file of `files` is older than one that stands before it.
pub open spec fn oldest_first(files: Seq<FileInfo>) -> bool {
    forall|i: int, j: int|
        0 <= i <= j < files.len() ==> (#[trigger] files[i]).modified.not_after(
            (#[trigger] files[j]).modified,
        )
}

/// A single file stays or goes as `keep` says.
proof fn lemma_filter_one(f: FileInfo, keep: spec_fn(FileInfo) -> bool)
    ensures
        seq![f].filter(keep) == if keep(f) {
            seq![f]
        } else {
            Seq::<FileInfo>::empty()
        },
{
    let one = seq![f];
    reveal_with_fuel(Seq::filter, 2);
    assert(one.drop_last() =~= Seq::<FileInfo>::empty());
    assert(one.last() == f);
    if keep(f) {
        assert(one.filter(keep) =~= one);
    } else {
        assert(one.filter(keep) =~= Seq::<FileInfo>::empty());
    }
}

/// Filtering takes the first file by itself and goes on with the rest.
proof fn lemma_filter_prepend(f: FileInfo, rest: Seq<FileInfo>, keep: spec_fn(FileInfo) -> bool)
    ensures
        (seq![f] + rest).filter(keep) == if keep(f) {
            seq![f] + rest.filter(keep)
        } else {
            rest.filter(keep)
        },
{
    Seq::filter_distributes_over_add(seq![f], rest, keep);
    lemma_filter_one(f, keep);
    assert(Seq::<FileInfo>::empty() + rest.filter(keep) =~= rest.filter(keep));
}

/// Where `keep` holds of no file, nothing is left.
proof fn lemma_filter_none(files: Seq<FileInfo>, keep: spec_fn(FileInfo) -> bool)
    requires
        forall|i: int| 0 <= i < files.len() ==> !keep(#[trigger] files[i]),
    ensures
        files.filter(keep) == Seq::<FileInfo>::empty(),
    decreases files.len(),
{
    reveal_with_fuel(Seq::filter, 1);
    if files.len() > 0 {
        let front = files.drop_last();
        assert forall|i: int| 0 <= i < front.len() implies !keep(#[trigger] front[i]) by {
            assert(front[i] == files[i]);
        }
        lemma_filter_none(front, keep);
        assert(!keep(files[files.len() - 1]));
    }
}

/// `images` takes the first file by itself and goes on with the rest.
proof fn lemma_images_prepend(f: FileInfo, rest: Seq<FileInfo>)
    ensures
        images(seq![f] + rest) == if image_name(f.filename) {
            seq![f] + images(rest)
        } else {
            images(rest)
        },
{
    lemma_filter_prepend(f, rest, |f: FileInfo| image_name(f.filename));
}

/// A file is inserted behind the files that are older than it and before
/// the first that is not.
proof fn lemma_insert_position(sorted: Seq<FileInfo>, f: FileInfo, at: int)
    requires
        0 <= at <= sorted.len(),
        forall|i: int| 0 <= i < at ==> (#[trigger] sorted[i]).modified.before(f.modified),
        at == sorted.len() || !sorted[at].modified.before(f.modified),
    ensures
        insert_by_modified(sorted, f) == sorted.insert(at, f),
    decreases sorted.len(),
{
    if at == 0 {
        assert(seq![f] + sorted =~= sorted.insert(0, f));
    } else {
        let tail = sorted.drop_first();
        assert forall|i: int| 0 <= i < at - 1 implies (#[trigger] tail[i]).modified.before(
            f.modified,
        ) by {
            assert(tail[i] == sorted[i + 1]);
        }
        lemma_insert_position(tail, f, at - 1);
        assert(seq![sorted.first()] + tail.insert(at - 1, f) =~= sorted.insert(at, f));
    }
}

/// The number of files at the head of `sorted` that are older than `f`.
pub open spec fn insert_point(sorted: Seq<FileInfo>, f: FileInfo) -> int
    decreases sorted.len(),
{
    if sorted.len() > 0 && sorted.first().modified.before(f.modified) {
        1 + insert_point(sorted.drop_first(), f)
    } else {
        0
    }
}

/// `insert_point` is the place at which `insert_by_modified` puts the file.
proof fn lemma_insert_point(sorted: Seq<FileInfo>, f: FileInfo)
    ensures
        0 <= insert_point(sorted, f) <= sorted.len(),
        forall|i: int|
            0 <= i < insert_point(sorted, f) ==> (#[trigger] sorted[i]).modified.before(
                f.modified,
            ),
        insert_point(sorted, f) == sorted.len() || !sorted[insert_point(
            sorted,
            f,
        )].modified.before(f.modified),
        insert_by_modified(sorted, f) == sorted.insert(insert_point(sorted, f), f),
    decreases sorted.len(),
{
    if sorted.len() > 0 && sorted.first().modified.before(f.modified) {
        let tail = sorted.drop_first();
        lemma_insert_point(tail, f);
        let at = insert_point(sorted, f);
        assert forall|i: int| 0 <= i < at implies (#[trigger] sorted[i]).modified.before(
            f.modified,
        ) by {
            if i > 0 {
                assert(sorted[i] == tail[i - 1]);
            }
        }
        if at < sorted.len() {
            assert(sorted[at] == tail[at - 1]);
        }
    }
    lemma_insert_position(sorted, f, insert_point(sorted, f));
}

/// Inserting a file into an ordered queue leaves the queue ordered.
proof fn lemma_insert_keeps_order(sorted: Seq<FileInfo>, f: FileInfo)
    requires
        oldest_first(sorted),
    ensures
        oldest_first(insert_by_modified(sorted, f)),
{
    lemma_insert_point(sorted, f);
    let at = insert_point(sorted, f);
    let out = sorted.insert(at, f);
    assert forall|i: int, j: int| 0 <= i <= j < out.len() implies (#[trigger] out[i]).modified.not_after(
        (#[trigger] out[j]).modified,
    ) by {
        let a = if i < at {
            sorted[i]
        } else if i == at {
            f
        } else {
            sorted[i - 1]
        };
        let b = if j < at {
            sorted[j]
        } else if j == at {
            f
        } else {
            sorted[j - 1]
        };
        assert(out[i] == a);
        assert(out[j] == b);
        if i == at && j > at {
            assert(sorted[at].modified.not_after(sorted[j - 1].modified));
        }
    }
}

/// `by_modified` puts the files in order: none is older than one before it.
pub proof fn lemma_by_modified_ordered(files: Seq<FileInfo>)
    ensures
        oldest_first(by_modified(files)),
    decreases files.len(),
{
    if files.len() > 0 {
        lemma_by_modified_ordered(files.drop_first());
        lemma_insert_keeps_order(by_modified(files.drop_first()), files.first());
    }
}

/// `by_modified` rearranges: it holds the same files, each as often as it
/// stands in `files`.
pub proof fn lemma_by_modified_permutes(files: Seq<FileInfo>)
    ensures
        by_modified(files).to_multiset() == files.to_multiset(),
    decreases files.len(),
{
    if files.len() > 0 {
        let rest = files.drop_first();
        let sorted = by_modified(rest);
        lemma_by_modified_permutes(rest);
        lemma_insert_point(sorted, files.first());
        vstd::seq_lib::to_multiset_insert(sorted, insert_point(sorted, files.first()), files.first());
        vstd::seq_lib::to_multiset_insert(rest, 0, files.first());
        assert(rest.insert(0, files.first()) =~= files);
    } else {
        assert(by_modified(files) =~= files);
    }
}

/// The files that were last modified at the instant `at`.
pub open spec fn modified_at(files: Seq<FileInfo>, at: Instant) -> Seq<FileInfo> {
    files.filter(|f: FileInfo| f.modified == at)
}

/// `by_modified` is stable: the files of one modification time stand in it
/// in the order in which they stand in `files`.
pub proof fn lemma_by_modified_stable(files: Seq<FileInfo>, at: Instant)
    ensures
        modified_at(by_modified(files), at) == modified_at(files, at),
    decreases files.len(),
{
    let keep = |f: FileInfo| f.modified == at;
    if files.len() > 0 {
        let f = files.first();
        let rest = files.drop_first();
        let sorted = by_modified(rest);
        lemma_by_modified_stable(rest, at);
        lemma_insert_point(sorted, f);
        let cut = insert_point(sorted, f);
        let older = sorted.subrange(0, cut);
        let others = sorted.subrange(cut, sorted.len() as int);
        assert(sorted =~= older + others);
        assert(sorted.insert(cut, f) =~= older + (seq![f] + others));
        assert(files =~= seq![f] + rest);
        Seq::filter_distributes_over_add(older, others, keep);
        Seq::filter_distributes_over_add(older, seq![f] + others, keep);
        lemma_filter_prepend(f, others, keep);
        lemma_filter_prepend(f, rest, keep);
        if f.modified == at {
            assert forall|i: int| 0 <= i < older.len() implies !keep(#[trigger] older[i]) by {
                assert(older[i] == sorted[i]);
                assert(sorted[i].modified.before(f.modified));
            }
            lemma_filter_none(older, keep);
            assert(Seq::<FileInfo>::empty() + others.filter(keep) =~= others.filter(keep));
            assert(Seq::<FileInfo>::empty() + (seq![f] + others.filter(keep)) =~= seq![f]
                + others.filter(keep));
        }
    } else {
        assert(by_modified(files) =~= files);
    }
}

/// The image files among `files`, oldest modification first: the order in
/// which a run takes them.
pub fn upload_queue(files: Vec<LocalFile>) -> (queue: Vec<LocalFile>)
    ensures
        file_views(queue@) == by_modified(images(file_views(files@))),
        oldest_first(file_views(queue@)),
        file_views(queue@).to_multiset() == images(file_views(files@)).to_multiset(),
        forall|at: Instant| #[trigger]
            modified_at(file_views(queue@), at) == modified_at(images(file_views(files@)), at),
{
    let ghost all = file_views(files@);
    let mut rest = files;
    let mut queue: Vec<LocalFile> = Vec::new();
    proof {
        assert(all.subrange(0, all.len() as int) =~= all);
        assert(all.subrange(all.len() as int, all.len() as int) =~= Seq::<FileInfo>::empty());
        reveal_with_fuel(Seq::filter, 1);
        assert(file_views(queue@) =~= Seq::<FileInfo>::empty());
    }
    while rest.len() > 0
        invariant
            rest@.len() <= all.len(),
            file_views(rest@) == all.subrange(0, rest@.len() as int),
            file_views(queue@) == by_modified(
                images(all.subrange(rest@.len() as int, all.len() as int)),
            ),
        decreases rest.len(),
    {
        let ghost before = rest@;
        let ghost taken = all.subrange(rest@.len() as int, all.len() as int);
        let file = rest.pop().unwrap();
        proof {
            let k = rest@.len() as int;
            assert(file_views(before)[k] == file@);
            assert(all[k] == file@);
            assert(file_views(rest@) =~= all.subrange(0, k));
            assert(all.subrange(k, all.len() as int) =~= seq![file@] + taken);
            lemma_images_prepend(file@, taken);
        }
        if is_image_name(file.filename.as_str()) {
            let mut at: usize = 0;
            while at < queue.len() && queue[at].modified.before(&file.modified)
                invariant
                    at <= queue.len(),
                    forall|i: int|
                        0 <= i < at ==> (#[trigger] file_views(queue@)[i]).modified.before(
                            file@.modified,
                        ),
                decreases queue.len() - at,
            {
                at = at + 1;
            }
            proof {
                let sorted = file_views(queue@);
                lemma_insert_position(sorted, file@, at as int);
                assert((seq![file@] + images(taken)).drop_first() =~= images(taken));
                assert(file_views(queue@.insert(at as int, file)) =~= sorted.insert(
                    at as int,
                    file@,
                ));
            }
            queue.insert(at, file);
        }
    }
    proof {
        assert(all.subrange(0, all.len() as int) =~= all);
        lemma_by_modified_ordered(images(all));
        lemma_by_modified_permutes(images(all));
        assert forall|at: Instant| #[trigger]
            modified_at(file_views(queue@), at) == modified_at(images(all), at) by {
            lemma_by_modified_stable(images(all), at);
        }
    }
    queue
}

} // verus!
