//! Partitions gathered under the disks that own them, and the column widths
//! that align a report.
//!
//! The groups keep the order in which their disks first occur among the
//! records, so that the same records always give the same report.

use crate::text::{byte_len, byte_length};
use crate::usage::{record_views, PartitionRecord, PartitionView};
use vstd::prelude::*;

verus! {

/// One disk with the partitions that it owns.
pub struct DiskGroup {
    pub name: String,
    pub partitions: Vec<PartitionRecord>,
}

/// A disk group as plain values.
pub struct GroupView {
    pub name: Seq<char>,
    pub partitions: Seq<PartitionView>,
}

impl View for DiskGroup {
    type V = GroupView;

    open spec fn view(&self) -> GroupView {
        GroupView { name: self.name@, partitions: record_views(self.partitions@) }
    }
}

/// The views of a run of groups, in order.
pub open spec fn group_views(groups: Seq<DiskGroup>) -> Seq<GroupView> {
    Seq::new(groups.len(), |i: int| groups[i]@)
}

/// The widths of the two columns of a report, in bytes: the longest mount
/// point and the longest disk name among all its partitions.
#[derive(Clone, Copy, PartialEq, Eq, Structural, Debug)]
pub struct AlignmentMetrics {
    pub mount_point_width: usize,
    pub disk_name_width: usize,
}

/// The disk names of the records, each once, in the order in which they
/// first occur.
pub open spec fn first_seen_names(records: Seq<PartitionView>) -> Seq<Seq<char>>
    decreases records.len(),
{
    if records.len() == 0 {
        Seq::empty()
    } else {
        let before: Seq<Seq<char>> = first_seen_names(records.drop_last());
        if before.contains(records.last().disk_name) {
            before
        } else {
            before.push(records.last().disk_name)
        }
    }
}

/// The records of the disk `name`, in the order of the records.
pub open spec fn partitions_of(records: Seq<PartitionView>, name: Seq<char>) -> Seq<PartitionView> {
    records.filter(|r: PartitionView| r.disk_name == name)
}

/// The groups of the records: one for each disk name, in the order in which
/// the names first occur, each with all the records of its disk.
pub open spec fn grouped(records: Seq<PartitionView>) -> Seq<GroupView> {
    Seq::new(
        first_seen_names(records).len(),
        |k: int|
            GroupView {
                name: first_seen_names(records)[k],
                partitions: partitions_of(records, first_seen_names(records)[k]),
            },
    )
}

/// The byte length of the longest mount point among the records, zero where
/// there is none.
pub open spec fn widest_mount_point(records: Seq<PartitionView>) -> nat
    decreases records.len(),
{
    if records.len() == 0 {
        0
    } else {
        let before: nat = widest_mount_point(records.drop_last());
        let here: nat = byte_len(records.last().mount_point);
        if here > before {
            here
        } else {
            before
        }
    }
}

/// The byte length of the longest disk name among the records, zero where
/// there is none.
pub open spec fn widest_disk_name(records: Seq<PartitionView>) -> nat
    decreases records.len(),
{
    if records.len() == 0 {
        0
    } else {
        let before: nat = widest_disk_name(records.drop_last());
        let here: nat = byte_len(records.last().disk_name);
        if here > before {
            here
        } else {
            before
        }
    }
}

/// No disk name occurs twice among the first-seen names.
pub proof fn lemma_first_seen_names_distinct(records: Seq<PartitionView>)
    ensures
        first_seen_names(records).no_duplicates(),
    decreases records.len(),
{
    if records.len() > 0 {
        lemma_first_seen_names_distinct(records.drop_last());
    }
}

/// The disk name of every record is among the first-seen names.
pub proof fn lemma_first_seen_names_complete(records: Seq<PartitionView>, i: int)
    requires
        0 <= i < records.len(),
    ensures
        first_seen_names(records).contains(records[i].disk_name),
    decreases records.len(),
{
    let before: Seq<Seq<char>> = first_seen_names(records.drop_last());
    let name: Seq<char> = records.last().disk_name;
    if i < records.len() - 1 {
        lemma_first_seen_names_complete(records.drop_last(), i);
        let at: int = choose|at: int| 0 <= at < before.len() && before[at] == records[i].disk_name;
        if !before.contains(name) {
            assert(before.push(name)[at] == records[i].disk_name);
        }
    } else if before.contains(name) {
    } else {
        assert(before.push(name)[before.len() as int] == name);
    }
}

/// Every first-seen name is the disk name of a record.
pub proof fn lemma_first_seen_names_sound(records: Seq<PartitionView>, k: int) -> (i: int)
    requires
        0 <= k < first_seen_names(records).len(),
    ensures
        0 <= i < records.len(),
        records[i].disk_name == first_seen_names(records)[k],
    decreases records.len(),
{
    let before: Seq<Seq<char>> = first_seen_names(records.drop_last());
    if k < before.len() {
        lemma_first_seen_names_sound(records.drop_last(), k)
    } else {
        records.len() - 1
    }
}

/// The records of a disk are records of that disk's name, and every record
/// of that name is among them.
pub proof fn lemma_partitions_of_holds_the_disk(records: Seq<PartitionView>, name: Seq<char>)
    ensures
        forall|j: int|
            0 <= j < partitions_of(records, name).len() ==> (#[trigger] partitions_of(
                records,
                name,
            )[j]).disk_name == name && records.contains(partitions_of(records, name)[j]),
        forall|i: int|
            0 <= i < records.len() && (#[trigger] records[i]).disk_name == name
                ==> partitions_of(records, name).contains(records[i]),
{
    let of_name = |r: PartitionView| r.disk_name == name;
    assert forall|j: int| 0 <= j < partitions_of(records, name).len() implies (
    #[trigger] partitions_of(records, name)[j]).disk_name == name && records.contains(
        partitions_of(records, name)[j],
    ) by {
        records.lemma_filter_pred(of_name, j);
        assert(records.filter(of_name).contains(records.filter(of_name)[j]));
        records.lemma_filter_contains_rev(of_name, records.filter(of_name)[j]);
    }
    assert forall|i: int|
        0 <= i < records.len() && (#[trigger] records[i]).disk_name == name implies partitions_of(
        records,
        name,
    ).contains(records[i]) by {
        records.lemma_filter_contains(of_name, i);
    }
}

/// The partitions of one disk stand together. Whatever the order of the
/// records, each record lies in a group that bears the name of its disk; that
/// group holds every record of that disk, in the order of the records, and
/// no record of another disk; and no other group bears that name.
pub proof fn lemma_disk_has_one_group(records: Seq<PartitionView>, i: int) -> (k: int)
    requires
        0 <= i < records.len(),
    ensures
        0 <= k < grouped(records).len(),
        grouped(records)[k].name == records[i].disk_name,
        grouped(records)[k].partitions == partitions_of(records, records[i].disk_name),
        grouped(records)[k].partitions.contains(records[i]),
        forall|j: int|
            0 <= j < grouped(records)[k].partitions.len() ==> (#[trigger] grouped(
                records,
            )[k].partitions[j]).disk_name == records[i].disk_name,
        forall|other: int|
            0 <= other < grouped(records).len() && (#[trigger] grouped(records)[other]).name
                == records[i].disk_name ==> other == k,
{
    let names: Seq<Seq<char>> = first_seen_names(records);
    let name: Seq<char> = records[i].disk_name;
    lemma_first_seen_names_complete(records, i);
    lemma_first_seen_names_distinct(records);
    lemma_partitions_of_holds_the_disk(records, name);
    let k: int = choose|k: int| 0 <= k < names.len() && names[k] == name;
    assert forall|other: int|
        0 <= other < grouped(records).len() && (#[trigger] grouped(records)[other]).name
            == name implies other == k by {
        assert(names[other] == names[k]);
    }
    k
}

/// Grouping neither loses nor repeats a record: the records of a disk hold
/// each record of that disk as often as it occurs among all records, and no
/// record of another disk.
pub proof fn lemma_partitions_of_counts(
    records: Seq<PartitionView>,
    name: Seq<char>,
    record: PartitionView,
)
    ensures
        partitions_of(records, name).to_multiset().count(record) == if record.disk_name == name {
            records.to_multiset().count(record)
        } else {
            0
        },
    decreases records.len(),
{
    let of_name = |r: PartitionView| r.disk_name == name;
    if records.len() == 0 {
        reveal(Seq::filter);
        assert(partitions_of(records, name) =~= Seq::<PartitionView>::empty());
        assert(records =~= Seq::<PartitionView>::empty());
        Seq::<PartitionView>::empty().to_multiset_ensures();
        assert(!Seq::<PartitionView>::empty().contains(record));
    } else {
        let front: Seq<PartitionView> = records.drop_last();
        let newest: PartitionView = records.last();
        lemma_partitions_of_counts(front, name, record);
        assert(records =~= front.push(newest));
        front.lemma_filter_push(newest, of_name);
        front.to_multiset_ensures();
        front.filter(of_name).to_multiset_ensures();
    }
}

/// Grouping does not depend on the order of the records but for the order of
/// its results: two runs of the same records, in whatever order, have the
/// same disks, and each disk has the same partitions.
pub proof fn lemma_grouping_ignores_order(
    first: Seq<PartitionView>,
    second: Seq<PartitionView>,
    name: Seq<char>,
)
    requires
        first.to_multiset() == second.to_multiset(),
    ensures
        first_seen_names(first).contains(name) <==> first_seen_names(second).contains(name),
        partitions_of(first, name).to_multiset() == partitions_of(second, name).to_multiset(),
{
    assert forall|record: PartitionView|
        partitions_of(first, name).to_multiset().count(record) == partitions_of(
            second,
            name,
        ).to_multiset().count(record) by {
        lemma_partitions_of_counts(first, name, record);
        lemma_partitions_of_counts(second, name, record);
    }
    assert(partitions_of(first, name).to_multiset() =~= partitions_of(second, name).to_multiset());
    if first_seen_names(first).contains(name) {
        lemma_names_follow_records(first, second, name);
    }
    if first_seen_names(second).contains(name) {
        lemma_names_follow_records(second, first, name);
    }
}

/// A disk of one run of records is a disk of every run that holds the same
/// records.
proof fn lemma_names_follow_records(
    first: Seq<PartitionView>,
    second: Seq<PartitionView>,
    name: Seq<char>,
)
    requires
        first.to_multiset() == second.to_multiset(),
        first_seen_names(first).contains(name),
    ensures
        first_seen_names(second).contains(name),
{
    let k: int = choose|k: int|
        0 <= k < first_seen_names(first).len() && first_seen_names(first)[k] == name;
    let i: int = lemma_first_seen_names_sound(first, k);
    first.to_multiset_ensures();
    second.to_multiset_ensures();
    assert(first.contains(first[i]));
    assert(first.to_multiset().count(first[i]) > 0);
    assert(second.to_multiset().count(first[i]) > 0);
    assert(second.contains(first[i]));
    let j: int = choose|j: int| 0 <= j < second.len() && second[j] == first[i];
    lemma_first_seen_names_complete(second, j);
}

/// No group is empty: each holds the record at which its disk first occurs.
pub proof fn lemma_groups_are_inhabited(records: Seq<PartitionView>, k: int)
    requires
        0 <= k < grouped(records).len(),
    ensures
        grouped(records)[k].partitions.len() > 0,
{
    let i: int = lemma_first_seen_names_sound(records, k);
    lemma_partitions_of_holds_the_disk(records, records[i].disk_name);
}

/// The mount-point width is the byte length of a longest mount point: no
/// record has a longer one, and where there are records, one of them has one
/// of that length.
pub proof fn lemma_widest_mount_point_is_max(records: Seq<PartitionView>)
    ensures
        forall|i: int|
            0 <= i < records.len() ==> byte_len((#[trigger] records[i]).mount_point)
                <= widest_mount_point(records),
        records.len() > 0 ==> exists|i: int|
            0 <= i < records.len() && byte_len((#[trigger] records[i]).mount_point)
                == widest_mount_point(records),
    decreases records.len(),
{
    if records.len() > 0 {
        let front: Seq<PartitionView> = records.drop_last();
        lemma_widest_mount_point_is_max(front);
        assert forall|i: int| 0 <= i < records.len() implies byte_len(
            (#[trigger] records[i]).mount_point,
        ) <= widest_mount_point(records) by {
            if i < front.len() {
                assert(front[i] == records[i]);
            }
        }
        if byte_len(records.last().mount_point) > widest_mount_point(front) || front.len() == 0 {
            assert(byte_len(records[records.len() - 1].mount_point) == widest_mount_point(records));
        } else {
            let at: int = choose|at: int|
                0 <= at < front.len() && byte_len((#[trigger] front[at]).mount_point)
                    == widest_mount_point(front);
            assert(front[at] == records[at]);
        }
    }
}

/// The disk-name width is the byte length of a longest disk name: no record
/// has a longer one, and where there are records, one of them has one of that
/// length.
pub proof fn lemma_widest_disk_name_is_max(records: Seq<PartitionView>)
    ensures
        forall|i: int|
            0 <= i < records.len() ==> byte_len((#[trigger] records[i]).disk_name)
                <= widest_disk_name(records),
        records.len() > 0 ==> exists|i: int|
            0 <= i < records.len() && byte_len((#[trigger] records[i]).disk_name)
                == widest_disk_name(records),
    decreases records.len(),
{
    if records.len() > 0 {
        let front: Seq<PartitionView> = records.drop_last();
        lemma_widest_disk_name_is_max(front);
        assert forall|i: int| 0 <= i < records.len() implies byte_len(
            (#[trigger] records[i]).disk_name,
        ) <= widest_disk_name(records) by {
            if i < front.len() {
                assert(front[i] == records[i]);
            }
        }
        if byte_len(records.last().disk_name) > widest_disk_name(front) || front.len() == 0 {
            assert(byte_len(records[records.len() - 1].disk_name) == widest_disk_name(records));
        } else {
            let at: int = choose|at: int|
                0 <= at < front.len() && byte_len((#[trigger] front[at]).disk_name)
                    == widest_disk_name(front);
            assert(front[at] == records[at]);
        }
    }
}

/// The views of a run of names, in order.
pub open spec fn name_views(names: Seq<String>) -> Seq<Seq<char>> {
    Seq::new(names.len(), |i: int| names[i]@)
}

/// Copies a record.
pub fn copy_record(record: &PartitionRecord) -> (copy: PartitionRecord)
    ensures
        copy@ == record@,
{
    PartitionRecord {
        disk_name: record.disk_name.clone(),
        mount_point: record.mount_point.clone(),
        total: record.total,
        available: record.available,
    }
}

/// Whether `name` is among `names`.
pub fn has_name(names: &Vec<String>, name: &String) -> (found: bool)
    ensures
        found == name_views(names@).contains(name@),
{
    let mut i: usize = 0;
    while i < names.len()
        invariant
            i <= names.len(),
            forall|j: int| 0 <= j < i ==> name_views(names@)[j] != name@,
        decreases names.len() - i,
    {
        if names[i] == *name {
            assert(name_views(names@)[i as int] == name@);
            return true;
        }
        i = i + 1;
    }
    false
}

/// The records of one disk, copied in order.
pub fn collect_partitions(records: &Vec<PartitionRecord>, name: &String) -> (partitions: Vec<
    PartitionRecord,
>)
    ensures
        record_views(partitions@) == partitions_of(record_views(records@), name@),
{
    let ghost views: Seq<PartitionView> = record_views(records@);
    let mut partitions: Vec<PartitionRecord> = Vec::new();
    let mut i: usize = 0;
    assert(views.take(0) =~= Seq::<PartitionView>::empty());
    assert(partitions_of(views.take(0), name@) =~= Seq::<PartitionView>::empty()) by {
        reveal(Seq::filter);
    }
    while i < records.len()
        invariant
            i <= records.len(),
            views == record_views(records@),
            record_views(partitions@) =~= partitions_of(views.take(i as int), name@),
        decreases records.len() - i,
    {
        let ghost before: Seq<PartitionView> = record_views(partitions@);
        proof {
            assert(views.take(i + 1) =~= views.take(i as int).push(views[i as int]));
            views.take(i as int).lemma_filter_push(
                views[i as int],
                |r: PartitionView| r.disk_name == name@,
            );
        }
        if records[i].disk_name == *name {
            partitions.push(copy_record(&records[i]));
            assert(record_views(partitions@) =~= before.push(views[i as int]));
        }
        i = i + 1;
    }
    assert(views.take(i as int) =~= views);
    partitions
}

/// Gathers the records under their disks and measures the two columns.
///
/// The groups come in the order in which their disks first occur among the
/// records, and the partitions of a group in the order of the records.
pub fn group(records: &Vec<PartitionRecord>) -> (result: (Vec<DiskGroup>, AlignmentMetrics))
    ensures
        group_views(result.0@) == grouped(record_views(records@)),
        result.1.mount_point_width == widest_mount_point(record_views(records@)),
        result.1.disk_name_width == widest_disk_name(record_views(records@)),
{
    let ghost views: Seq<PartitionView> = record_views(records@);
    let mut names: Vec<String> = Vec::new();
    let mut mount_point_width: usize = 0;
    let mut disk_name_width: usize = 0;
    let mut i: usize = 0;
    assert(views.take(0) =~= Seq::<PartitionView>::empty());
    while i < records.len()
        invariant
            i <= records.len(),
            views == record_views(records@),
            name_views(names@) =~= first_seen_names(views.take(i as int)),
            mount_point_width == widest_mount_point(views.take(i as int)),
            disk_name_width == widest_disk_name(views.take(i as int)),
        decreases records.len() - i,
    {
        let ghost before: Seq<Seq<char>> = name_views(names@);
        assert(views.take(i + 1).drop_last() =~= views.take(i as int));
        let record: &PartitionRecord = &records[i];
        if !has_name(&names, &record.disk_name) {
            names.push(record.disk_name.clone());
            assert(name_views(names@) =~= before.push(record.disk_name@));
        }
        let mount_len: usize = byte_length(record.mount_point.as_str());
        if mount_len > mount_point_width {
            mount_point_width = mount_len;
        }
        let name_len: usize = byte_length(record.disk_name.as_str());
        if name_len > disk_name_width {
            disk_name_width = name_len;
        }
        i = i + 1;
    }
    assert(views.take(i as int) =~= views);
    let mut groups: Vec<DiskGroup> = Vec::new();
    let mut k: usize = 0;
    while k < names.len()
        invariant
            k <= names.len(),
            views == record_views(records@),
            name_views(names@) == first_seen_names(views),
            groups.len() == k,
            forall|j: int| 0 <= j < k ==> (#[trigger] groups[j])@ == grouped(views)[j],
        decreases names.len() - k,
    {
        let name: String = names[k].clone();
        let partitions: Vec<PartitionRecord> = collect_partitions(records, &name);
        assert(name_views(names@)[k as int] == name@);
        groups.push(DiskGroup { name, partitions });
        k = k + 1;
    }
    assert(name_views(names@).len() == names.len());
    assert(group_views(groups@) =~= grouped(views));
    (groups, AlignmentMetrics { mount_point_width, disk_name_width })
}

} // verus!
