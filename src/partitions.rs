//! Choosing which partitions of a table to erase.

use std::collections::HashMap;

use vstd::prelude::*;

verus! {

broadcast use vstd::std_specs::hash::group_hash_axioms;

/// What the erase logic reads of a partition.
pub struct PartitionEntry {
    pub name: String,
    /// Whether the partition is of the data type (as opposed to app).
    pub is_data: bool,
    /// The partition's subtype code.
    pub subtype: u8,
    pub offset: u32,
    pub size: u32,
}

/// Why no selection could be made.
#[derive(Debug, PartialEq, Eq)]
pub enum EraseError {
    /// No partition table is known.
    MissingPartitionTable,
    /// No partition carries this label.
    MissingPartition(String),
}

/// Index `i` is the first partition named `label`.
pub open spec fn first_named(t: Seq<PartitionEntry>, label: Seq<char>, i: int) -> bool {
    &&& 0 <= i < t.len()
    &&& t[i].name@ == label
    &&& forall|j: int| 0 <= j < i ==> t[j].name@ != label
}

/// Some partition is named `label`.
pub open spec fn has_label(t: Seq<PartitionEntry>, label: Seq<char>) -> bool {
    exists|i: int| 0 <= i < t.len() && t[i].name@ == label
}

/// The offsets to erase: those of the partitions named by the labels, and
/// those of the data partitions of the given subtypes.
pub open spec fn wanted_offsets(
    t: Seq<PartitionEntry>,
    labels: Seq<Seq<char>>,
    subtypes: Seq<u8>,
) -> Set<u32> {
    Set::new(
        |o: u32|
            (exists|a: int, i: int|
                0 <= a < labels.len() && first_named(t, labels[a], i) && t[i].offset == o) || (
            exists|j: int|
                0 <= j < t.len() && t[j].is_data && subtypes.contains(t[j].subtype) && t[j].offset
                    == o),
    )
}

/// Each chosen offset maps to the index of a partition at that offset.
pub open spec fn consistent_choice(t: Seq<PartitionEntry>, m: Map<u32, usize>) -> bool {
    forall|o: u32| #[trigger] m.contains_key(o) ==> m[o] < t.len() && t[m[o] as int].offset == o
}

/// Label `a` is the first of the list that names no partition.
pub open spec fn first_missing(t: Seq<PartitionEntry>, labels: Seq<Seq<char>>, a: int) -> bool {
    &&& 0 <= a < labels.len()
    &&& !has_label(t, labels[a])
    &&& forall|b: int| 0 <= b < a ==> has_label(t, #[trigger] labels[b])
}

pub open spec fn labels_view(labels: Seq<String>) -> Seq<Seq<char>> {
    labels.map_values(|l: String| l@)
}

/// The labels asked for, none when absent.
pub open spec fn labels_of(erase_parts: Option<Vec<String>>) -> Seq<Seq<char>> {
    match erase_parts {
        Some(l) => labels_view(l@),
        None => Seq::empty(),
    }
}

/// The data subtypes asked for, none when absent.
pub open spec fn subtypes_of(erase_data_parts: Option<Vec<u8>>) -> Seq<u8> {
    match erase_data_parts {
        Some(s) => s@,
        None => Seq::empty(),
    }
}

/// The index of the first partition named `label`, if any.
fn find_label(t: &Vec<PartitionEntry>, label: &String) -> (r: Option<usize>)
    ensures
        r.is_none() <==> !has_label(t@, label@),
        r.is_some() ==> first_named(t@, label@, r.unwrap() as int),
{
    let mut i: usize = 0;
    while i < t.len()
        invariant
            i <= t@.len(),
            forall|j: int| 0 <= j < i ==> t@[j].name@ != label@,
        decreases t@.len() - i,
    {
        if t[i].name == *label {
            return Some(i);
        }
        i = i + 1;
    }
    None
}

/// Chooses the partitions to erase, keyed by offset so that each region is
/// erased once: each one named in `erase_parts`, and every data partition
/// whose subtype is in `erase_data_parts`; of two at one offset the later
/// chosen is kept. Fails without a table, or on the first label that names
/// no partition.
pub fn select_partitions(
    partition_table: Option<&Vec<PartitionEntry>>,
    erase_parts: Option<Vec<String>>,
    erase_data_parts: Option<Vec<u8>>,
) -> (r: Result<HashMap<u32, usize>, EraseError>)
    ensures
        partition_table.is_none() ==> r == Err::<HashMap<u32, usize>, EraseError>(
            EraseError::MissingPartitionTable,
        ),
        partition_table.is_some() ==> ({
            let t = partition_table.unwrap()@;
            let labels = labels_of(erase_parts);
            let subtypes = subtypes_of(erase_data_parts);
            &&& r.is_ok() <==> forall|a: int| 0 <= a < labels.len() ==> has_label(t, labels[a])
            &&& r.is_ok() ==> consistent_choice(t, r.unwrap()@) && r.unwrap()@.dom()
                == wanted_offsets(t, labels, subtypes)
            &&& r.is_err() ==> r is Err && r->Err_0 is MissingPartition && exists|a: int|
                #[trigger] first_missing(t, labels, a) && r->Err_0->MissingPartition_0@ == labels[a]
        }),
{
    let t = match partition_table {
        Some(t) => t,
        None => return Err(EraseError::MissingPartitionTable),
    };
    let labels: Vec<String> = match erase_parts {
        Some(l) => l,
        None => Vec::new(),
    };
    let subtypes: Vec<u8> = match erase_data_parts {
        Some(s) => s,
        None => Vec::new(),
    };
    let ghost lv = labels_view(labels@);
    let ghost tv = t@;
    assert(lv =~= labels_of(erase_parts));
    let mut chosen: HashMap<u32, usize> = HashMap::new();
    assert(chosen@.dom() =~= Set::<u32>::empty());
    let mut a: usize = 0;
    while a < labels.len()
        invariant
            a <= labels@.len(),
            tv == t@,
            partition_table == Some(t),
            lv == labels_view(labels@),
            lv == labels_of(erase_parts),
            consistent_choice(t@, chosen@),
            forall|b: int| 0 <= b < a ==> has_label(t@, #[trigger] lv[b]),
            chosen@.dom() == Set::new(
                |o: u32|
                    exists|b: int, i: int|
                        0 <= b < a && first_named(t@, lv[b], i) && t@[i].offset == o,
            ),
        decreases labels@.len() - a,
    {
        match find_label(t, &labels[a]) {
            None => {
                let name = labels[a].clone();
                assert(lv[a as int] == labels@[a as int]@);
                let r = Err(EraseError::MissingPartition(name));
                assert(first_missing(t@, lv, a as int));
                assert(partition_table.unwrap()@ == t@);
                assert(!(forall|b: int| 0 <= b < lv.len() ==> has_label(t@, lv[b])));
                assert(first_missing(partition_table.unwrap()@, labels_of(erase_parts), a as int));
                return r;
            },
            Some(i) => {
                chosen.insert(t[i].offset, i);
                assert(lv[a as int] == labels@[a as int]@);
                assert(chosen@.dom() =~= Set::new(
                    |o: u32|
                        exists|b: int, j: int|
                            0 <= b < a + 1 && first_named(t@, lv[b], j) && t@[j].offset == o,
                )) by {
                    assert forall|o: u32|
                        #![trigger chosen@.dom().contains(o)]
                        chosen@.dom().contains(o) <==> exists|b: int, j: int|
                            0 <= b < a + 1 && first_named(t@, lv[b], j) && t@[j].offset == o by {
                        if exists|b: int, j: int|
                            0 <= b < a + 1 && first_named(t@, lv[b], j) && t@[j].offset == o {
                            let (b, j) = choose|b: int, j: int|
                                0 <= b < a + 1 && first_named(t@, lv[b], j) && t@[j].offset == o;
                            if b == a {
                                assert(j == i as int) by {
                                    if j < i as int {
                                        assert(t@[j].name@ != labels@[a as int]@);
                                    }
                                    if (i as int) < j {
                                        assert(t@[i as int].name@ != lv[b]);
                                    }
                                }
                            }
                        }
                    }
                }
            },
        }
        a = a + 1;
    }
    let ghost label_part = chosen@.dom();
    assert(subtypes@.subrange(0, 0) =~= Seq::<u8>::empty());
    assert(label_part =~= label_part + Set::new(
        |o: u32|
            exists|j: int|
                0 <= j < t@.len() && t@[j].is_data && subtypes@.subrange(0, 0).contains(
                    t@[j].subtype,
                ) && t@[j].offset == o,
    ));
    let mut s: usize = 0;
    while s < subtypes.len()
        invariant
            s <= subtypes@.len(),
            consistent_choice(t@, chosen@),
            chosen@.dom() == label_part + Set::new(
                |o: u32|
                    exists|j: int|
                        0 <= j < t@.len() && t@[j].is_data && subtypes@.subrange(
                            0,
                            s as int,
                        ).contains(t@[j].subtype) && t@[j].offset == o,
            ),
        decreases subtypes@.len() - s,
    {
        let ty = subtypes[s];
        let ghost earlier = label_part + Set::new(
            |o: u32|
                exists|m: int|
                    0 <= m < t@.len() && t@[m].is_data && subtypes@.subrange(0, s as int).contains(
                        t@[m].subtype,
                    ) && t@[m].offset == o,
        );
        assert(earlier =~= earlier + Set::new(
            |o: u32|
                exists|m: int| 0 <= m < 0 && t@[m].is_data && t@[m].subtype == ty && t@[m].offset == o,
        ));
        let mut j: usize = 0;
        while j < t.len()
            invariant
                s < subtypes@.len(),
                ty == subtypes@[s as int],
                j <= t@.len(),
                consistent_choice(t@, chosen@),
                chosen@.dom() == earlier + Set::new(
                    |o: u32|
                        exists|m: int|
                            0 <= m < j && t@[m].is_data && t@[m].subtype == ty && t@[m].offset
                                == o,
                ),
            decreases t@.len() - j,
        {
            if t[j].is_data && t[j].subtype == ty {
                chosen.insert(t[j].offset, j);
            }
            assert(chosen@.dom() =~= earlier + Set::new(
                |o: u32|
                    exists|m: int|
                        0 <= m < j + 1 && t@[m].is_data && t@[m].subtype == ty && t@[m].offset == o,
            ));
            j = j + 1;
        }
        proof {
            let sub = subtypes@.subrange(0, s as int);
            let sub1 = subtypes@.subrange(0, s as int + 1);
            assert(sub1 =~= sub.push(ty));
            assert forall|x: u8| sub1.contains(x) <==> (sub.contains(x) || x == ty) by {
                if sub1.contains(x) {
                    let k = choose|k: int| 0 <= k < sub1.len() && sub1[k] == x;
                    if k < s {
                        assert(sub[k] == x);
                    }
                }
                if sub.contains(x) {
                    let k = choose|k: int| 0 <= k < sub.len() && sub[k] == x;
                    assert(sub1[k] == x);
                }
                if x == ty {
                    assert(sub1[s as int] == x);
                }
            }
            assert(chosen@.dom() =~= label_part + Set::new(
                |o: u32|
                    exists|m: int|
                        0 <= m < t@.len() && t@[m].is_data && sub1.contains(t@[m].subtype)
                            && t@[m].offset == o,
            ));
        }
        s = s + 1;
    }
    proof {
        assert(subtypes@.subrange(0, subtypes@.len() as int) =~= subtypes@);
        assert(subtypes@ == subtypes_of(erase_data_parts));
        assert(chosen@.dom() =~= wanted_offsets(t@, lv, subtypes@));
    }
    Ok(chosen)
}

} // verus!
