//! Consistency of the schema migrations.
//!
//! The catalog lists, in order, every migration that this build knows. The
//! store records which of them were applied, each with the checksum it had
//! then. Before the store is used the two are held against each other: a
//! recorded checksum that differs from the catalog's means that the history
//! of the store is not the history that this build expects.

use std::collections::HashMap;
use vstd::prelude::*;
use vstd::std_specs::hash::*;

use crate::error::Error;

verus! {

broadcast use vstd::std_specs::hash::group_hash_axioms;

/// A migration of the catalog.
#[derive(Debug)]
pub struct Migration {
    pub version: i64,
    /// Checksum of the migration's content.
    pub checksum: Vec<u8>,
    /// Whether the migration undoes another one; such a migration is never
    /// applied going forward and takes no part in the check.
    pub reversing: bool,
}

/// A record of a migration that was applied.
#[derive(Debug)]
pub struct AppliedMigration {
    pub version: i64,
    /// Checksum of the content as it was applied.
    pub checksum: Vec<u8>,
}

/// Mathematical content of a [`Migration`].
pub struct MigrationView {
    pub version: i64,
    pub checksum: Seq<u8>,
    pub reversing: bool,
}

/// Mathematical content of an [`AppliedMigration`].
pub struct AppliedView {
    pub version: i64,
    pub checksum: Seq<u8>,
}

impl View for Migration {
    type V = MigrationView;

    open spec fn view(&self) -> MigrationView {
        MigrationView { version: self.version, checksum: self.checksum@, reversing: self.reversing }
    }
}

impl View for AppliedMigration {
    type V = AppliedView;

    open spec fn view(&self) -> AppliedView {
        AppliedView { version: self.version, checksum: self.checksum@ }
    }
}

/// The migrations of a catalog, as mathematical values.
pub open spec fn catalog_views(catalog: Seq<Migration>) -> Seq<MigrationView> {
    Seq::new(catalog.len(), |i: int| catalog[i]@)
}

/// The applied records, as mathematical values.
pub open spec fn applied_views(applied: Seq<AppliedMigration>) -> Seq<AppliedView> {
    Seq::new(applied.len(), |i: int| applied[i]@)
}

/// The checksum recorded for each version. Of two records with one version
/// the later one counts.
pub open spec fn recorded(applied: Seq<AppliedView>) -> Map<i64, Seq<u8>>
    decreases applied.len(),
{
    if applied.len() == 0 {
        Map::empty()
    } else {
        recorded(applied.drop_last()).insert(applied.last().version, applied.last().checksum)
    }
}

/// Whether `migration` was applied with another checksum than it has now.
pub open spec fn mismatched(migration: MigrationView, record: Map<i64, Seq<u8>>) -> bool {
    &&& !migration.reversing
    &&& record.contains_key(migration.version)
    &&& record[migration.version] != migration.checksum
}

/// Whether `migration` is still to be applied.
pub open spec fn pending(migration: MigrationView, record: Map<i64, Seq<u8>>) -> bool {
    !migration.reversing && !record.contains_key(migration.version)
}

/// Whether some migration of the catalog is mismatched.
pub open spec fn has_mismatch(catalog: Seq<MigrationView>, applied: Seq<AppliedView>) -> bool {
    exists|i: int| 0 <= i < catalog.len() && mismatched(#[trigger] catalog[i], recorded(applied))
}

/// Whether some migration of the catalog is pending.
pub open spec fn has_pending(catalog: Seq<MigrationView>, applied: Seq<AppliedView>) -> bool {
    exists|i: int| 0 <= i < catalog.len() && pending(#[trigger] catalog[i], recorded(applied))
}

/// The record that applying `migration` leaves.
pub open spec fn record_of(migration: MigrationView) -> AppliedView {
    AppliedView { version: migration.version, checksum: migration.checksum }
}

/// The records after every pending migration of `catalog` was applied, one
/// after the other in the order of the catalog.
pub open spec fn applied_after(catalog: Seq<MigrationView>, applied: Seq<AppliedView>) -> Seq<
    AppliedView,
>
    decreases catalog.len(),
{
    if catalog.len() == 0 {
        applied
    } else if pending(catalog.first(), recorded(applied)) {
        applied_after(catalog.drop_first(), applied.push(record_of(catalog.first())))
    } else {
        applied_after(catalog.drop_first(), applied)
    }
}

/// Whether no two migrations of the catalog that go forward share a
/// version.
pub open spec fn distinct_versions(catalog: Seq<MigrationView>) -> bool {
    forall|i: int, j: int|
        0 <= i < j < catalog.len() && !catalog[i].reversing && !catalog[j].reversing
            ==> catalog[i].version != catalog[j].version
}

/// Whether two checksums are the same bytes.
pub fn same_bytes(left: &Vec<u8>, right: &Vec<u8>) -> (same: bool)
    ensures
        same == (left@ == right@),
{
    if left.len() != right.len() {
        return false;
    }
    let mut at: usize = 0;
    while at < left.len()
        invariant
            at <= left.len() == right.len(),
            forall|i: int| 0 <= i < at ==> left@[i] == right@[i],
        decreases left.len() - at,
    {
        if left[at] != right[at] {
            return false;
        }
        at = at + 1;
    }
    assert(left@ =~= right@);
    true
}

/// Where the record that counts for a version stands in `applied`.
pub open spec fn indexes(index: Map<i64, usize>, applied: Seq<AppliedView>) -> bool {
    &&& forall|version: i64|
        index.contains_key(version) <==> #[trigger] recorded(applied).contains_key(version)
    &&& forall|version: i64| #[trigger]
        index.contains_key(version) ==> index[version] < applied.len()
            && applied[index[version] as int].checksum == recorded(applied)[version]
}

/// Pushing a record and pointing its version at it keeps an index.
proof fn lemma_index_grows(index: Map<i64, usize>, applied: Seq<AppliedView>, record: AppliedView)
    requires
        indexes(index, applied),
        applied.len() <= usize::MAX,
    ensures
        indexes(index.insert(record.version, applied.len() as usize), applied.push(record)),
        recorded(applied.push(record)) == recorded(applied).insert(record.version, record.checksum),
{
    let next = applied.push(record);
    let grown = index.insert(record.version, applied.len() as usize);
    assert(next.drop_last() =~= applied);
    assert(next.last() == record);
    assert(recorded(next) == recorded(applied).insert(record.version, record.checksum));
    assert forall|version: i64| #[trigger] grown.contains_key(version) implies grown[version]
        < next.len() && next[grown[version] as int].checksum == recorded(next)[version] by {
        if version != record.version {
            assert(index.contains_key(version));
            assert(next[index[version] as int] == applied[index[version] as int]);
        }
    }
}

/// Indexes the applied records by version.
fn index_applied(applied: &Vec<AppliedMigration>) -> (index: HashMap<i64, usize>)
    ensures
        indexes(index@, applied_views(applied@)),
{
    let mut index: HashMap<i64, usize> = HashMap::new();
    let mut at: usize = 0;
    while at < applied.len()
        invariant
            at <= applied.len(),
            indexes(index@, applied_views(applied@).take(at as int)),
        decreases applied.len() - at,
    {
        proof {
            let views = applied_views(applied@);
            lemma_index_grows(index@, views.take(at as int), views[at as int]);
            assert(views.take(at as int).push(views[at as int]) =~= views.take(at + 1));
        }
        index.insert(applied[at].version, at);
        at = at + 1;
    }
    proof {
        assert(applied_views(applied@).take(at as int) =~= applied_views(applied@));
    }
    index
}

/// Whether the store lacks a migration of the catalog.
///
/// A migration that was applied with another checksum than the catalog has
/// for it is fatal, whatever else is pending. Without such a one, the answer
/// is whether some migration of the catalog has no record.
pub fn is_migration_available(catalog: &Vec<Migration>, applied: &Vec<AppliedMigration>) -> (res:
    Result<bool, Error>)
    ensures
        match res {
            Ok(available) => {
                &&& !has_mismatch(catalog_views(catalog@), applied_views(applied@))
                &&& available == has_pending(catalog_views(catalog@), applied_views(applied@))
            },
            Err(error) => {
                &&& has_mismatch(catalog_views(catalog@), applied_views(applied@))
                &&& error is MigrationError
            },
        },
{
    let index = index_applied(applied);
    let ghost known = catalog_views(catalog@);
    let ghost done = applied_views(applied@);
    let mut at: usize = 0;
    while at < catalog.len()
        invariant
            at <= catalog.len(),
            known == catalog_views(catalog@),
            done == applied_views(applied@),
            indexes(index@, done),
            forall|i: int| 0 <= i < at ==> !mismatched(#[trigger] known[i], recorded(done)),
        decreases catalog.len() - at,
    {
        let migration = &catalog[at];
        if !migration.reversing {
            match index.get(&migration.version) {
                Some(place) => {
                    if !same_bytes(&migration.checksum, &applied[*place].checksum) {
                        assert(done[*place as int] == applied@[*place as int]@);
                        assert(mismatched(known[at as int], recorded(done)));
                        return Err(
                            Error::MigrationError("mismatched migration is found".to_string()),
                        );
                    }
                    assert(done[*place as int] == applied@[*place as int]@);
                },
                None => {},
            }
        }
        at = at + 1;
    }
    let mut at: usize = 0;
    while at < catalog.len()
        invariant
            at <= catalog.len(),
            known == catalog_views(catalog@),
            done == applied_views(applied@),
            indexes(index@, done),
            !has_mismatch(known, done),
            forall|i: int| 0 <= i < at ==> !pending(#[trigger] known[i], recorded(done)),
        decreases catalog.len() - at,
    {
        let migration = &catalog[at];
        if !migration.reversing && !index.contains_key(&migration.version) {
            assert(pending(known[at as int], recorded(done)));
            return Ok(true);
        }
        at = at + 1;
    }
    Ok(false)
}

/// A copy of a checksum.
fn copy_bytes(bytes: &Vec<u8>) -> (copy: Vec<u8>)
    ensures
        copy@ == bytes@,
{
    let mut copy: Vec<u8> = Vec::new();
    let mut at: usize = 0;
    while at < bytes.len()
        invariant
            at <= bytes.len(),
            copy@ == bytes@.take(at as int),
        decreases bytes.len() - at,
    {
        copy.push(bytes[at]);
        at = at + 1;
        assert(copy@ =~= bytes@.take(at as int));
    }
    assert(bytes@.take(at as int) =~= bytes@);
    copy
}

/// Applies every pending migration of the catalog, in the order of the
/// catalog, and records each.
///
/// Nothing is applied where a migration is mismatched. Where nothing is
/// pending, nothing changes.
pub fn run_migration(catalog: &Vec<Migration>, applied: &mut Vec<AppliedMigration>) -> (res: Result<
    (),
    Error,
>)
    ensures
        match res {
            Ok(_) => {
                &&& !has_mismatch(catalog_views(catalog@), applied_views(old(applied)@))
                &&& applied_views(final(applied)@) == applied_after(
                    catalog_views(catalog@),
                    applied_views(old(applied)@),
                )
            },
            Err(error) => {
                &&& has_mismatch(catalog_views(catalog@), applied_views(old(applied)@))
                &&& error is MigrationError
                &&& final(applied)@ == old(applied)@
            },
        },
{
    match is_migration_available(catalog, applied) {
        Err(error) => {
            return Err(error);
        },
        Ok(_) => {},
    }
    let mut index = index_applied(applied);
    let ghost known = catalog_views(catalog@);
    let ghost start = applied_views(applied@);
    let mut at: usize = 0;
    assert(known.skip(0) =~= known);
    while at < catalog.len()
        invariant
            at <= catalog.len(),
            known == catalog_views(catalog@),
            indexes(index@, applied_views(applied@)),
            applied_after(known, start) == applied_after(
                known.skip(at as int),
                applied_views(applied@),
            ),
        decreases catalog.len() - at,
    {
        let migration = &catalog[at];
        let ghost done = applied_views(applied@);
        proof {
            assert(known.skip(at as int).first() == known[at as int]);
            assert(known.skip(at as int).drop_first() =~= known.skip(at + 1));
        }
        if !migration.reversing && !index.contains_key(&migration.version) {
            let place: usize = applied.len();
            proof {
                assert(done.len() == place);
                lemma_index_grows(index@, done, record_of(known[at as int]));
            }
            let checksum = copy_bytes(&migration.checksum);
            applied.push(AppliedMigration { version: migration.version, checksum });
            index.insert(migration.version, place);
            assert(applied_views(applied@) =~= done.push(record_of(known[at as int])));
        }
        at = at + 1;
    }
    Ok(())
}

/// What is recorded stays recorded, with its checksum, when pending
/// migrations are applied.
pub proof fn lemma_records_stay(catalog: Seq<MigrationView>, applied: Seq<AppliedView>, version: i64)
    requires
        recorded(applied).contains_key(version),
    ensures
        recorded(applied_after(catalog, applied)).contains_key(version),
        recorded(applied_after(catalog, applied))[version] == recorded(applied)[version],
    decreases catalog.len(),
{
    if catalog.len() > 0 {
        if pending(catalog.first(), recorded(applied)) {
            let next = applied.push(record_of(catalog.first()));
            assert(next.drop_last() =~= applied);
            lemma_records_stay(catalog.drop_first(), next, version);
        } else {
            lemma_records_stay(catalog.drop_first(), applied, version);
        }
    }
}

/// After the pending migrations were applied, none is pending.
pub proof fn lemma_nothing_pending_after_run(catalog: Seq<MigrationView>, applied: Seq<AppliedView>)
    ensures
        !has_pending(catalog, applied_after(catalog, applied)),
    decreases catalog.len(),
{
    if catalog.len() > 0 {
        let first = catalog.first();
        let rest = catalog.drop_first();
        let next = if pending(first, recorded(applied)) {
            applied.push(record_of(first))
        } else {
            applied
        };
        assert(next.drop_last() =~= applied || next == applied);
        lemma_nothing_pending_after_run(rest, next);
        let after = applied_after(catalog, applied);
        assert forall|i: int| 0 <= i < catalog.len() implies !pending(
            #[trigger] catalog[i],
            recorded(after),
        ) by {
            if i == 0 {
                if !first.reversing {
                    assert(recorded(next).contains_key(first.version));
                    lemma_records_stay(rest, next, first.version);
                }
            } else {
                assert(catalog[i] == rest[i - 1]);
            }
        }
    }
}

/// Where nothing is pending, applying changes nothing.
pub proof fn lemma_run_without_pending(catalog: Seq<MigrationView>, applied: Seq<AppliedView>)
    requires
        !has_pending(catalog, applied),
    ensures
        applied_after(catalog, applied) == applied,
    decreases catalog.len(),
{
    if catalog.len() > 0 {
        let rest = catalog.drop_first();
        assert(catalog[0] == catalog.first());
        assert forall|i: int| 0 <= i < rest.len() implies !pending(
            #[trigger] rest[i],
            recorded(applied),
        ) by {
            assert(rest[i] == catalog[i + 1]);
        }
        lemma_run_without_pending(rest, applied);
    }
}

/// Applying a second time changes nothing.
pub proof fn lemma_run_twice(catalog: Seq<MigrationView>, applied: Seq<AppliedView>)
    ensures
        applied_after(catalog, applied_after(catalog, applied)) == applied_after(catalog, applied),
{
    lemma_nothing_pending_after_run(catalog, applied);
    lemma_run_without_pending(catalog, applied_after(catalog, applied));
}

/// A store without records has no mismatch, and lacks every migration of
/// the catalog that goes forward.
pub proof fn lemma_fresh_store(catalog: Seq<MigrationView>)
    ensures
        !has_mismatch(catalog, Seq::<AppliedView>::empty()),
        has_pending(catalog, Seq::<AppliedView>::empty()) <==> exists|i: int|
            0 <= i < catalog.len() && !(#[trigger] catalog[i]).reversing,
{
    let none = Seq::<AppliedView>::empty();
    assert(recorded(none) == Map::<i64, Seq<u8>>::empty());
    if has_pending(catalog, none) {
        let i = choose|i: int| 0 <= i < catalog.len() && pending(#[trigger] catalog[i], recorded(none));
        assert(!catalog[i].reversing);
    }
    if exists|i: int| 0 <= i < catalog.len() && !(#[trigger] catalog[i]).reversing {
        let i = choose|i: int| 0 <= i < catalog.len() && !(#[trigger] catalog[i]).reversing;
        assert(pending(catalog[i], recorded(none)));
    }
}

/// Applying the rest of a catalog with distinct versions brings no
/// mismatch into a store that had none.
proof fn lemma_run_keeps_match(
    catalog: Seq<MigrationView>,
    from: int,
    applied: Seq<AppliedView>,
)
    requires
        0 <= from <= catalog.len(),
        distinct_versions(catalog),
        !has_mismatch(catalog, applied),
    ensures
        !has_mismatch(catalog, applied_after(catalog.skip(from), applied)),
    decreases catalog.len() - from,
{
    let rest = catalog.skip(from);
    if from < catalog.len() {
        let first = catalog[from];
        assert(rest.first() == first);
        assert(rest.drop_first() =~= catalog.skip(from + 1));
        if pending(first, recorded(applied)) {
            let next = applied.push(record_of(first));
            assert(next.drop_last() =~= applied);
            assert forall|i: int| 0 <= i < catalog.len() implies !mismatched(
                #[trigger] catalog[i],
                recorded(next),
            ) by {
                assert(!mismatched(catalog[i], recorded(applied)));
                if !catalog[i].reversing && catalog[i].version == first.version {
                    assert(i == from);
                }
            }
            lemma_run_keeps_match(catalog, from + 1, next);
        } else {
            lemma_run_keeps_match(catalog, from + 1, applied);
        }
    }
}

/// Once the pending migrations of a catalog with distinct versions were
/// applied to a store without mismatch, the store lacks nothing and has no
/// mismatch.
pub proof fn lemma_up_to_date_after_run(catalog: Seq<MigrationView>, applied: Seq<AppliedView>)
    requires
        distinct_versions(catalog),
        !has_mismatch(catalog, applied),
    ensures
        !has_mismatch(catalog, applied_after(catalog, applied)),
        !has_pending(catalog, applied_after(catalog, applied)),
{
    assert(catalog.skip(0) =~= catalog);
    lemma_run_keeps_match(catalog, 0, applied);
    lemma_nothing_pending_after_run(catalog, applied);
}

/// The life of an emptied store whose catalog has distinct versions and
/// holds a migration that goes forward: it lacks a migration before the
/// pending ones are applied and none right after, and applying once more
/// changes nothing.
pub proof fn lemma_empty_store_catches_up(catalog: Seq<MigrationView>)
    requires
        distinct_versions(catalog),
        exists|i: int| 0 <= i < catalog.len() && !(#[trigger] catalog[i]).reversing,
    ensures
        !has_mismatch(catalog, Seq::<AppliedView>::empty()),
        has_pending(catalog, Seq::<AppliedView>::empty()),
        !has_mismatch(catalog, applied_after(catalog, Seq::<AppliedView>::empty())),
        !has_pending(catalog, applied_after(catalog, Seq::<AppliedView>::empty())),
        applied_after(catalog, applied_after(catalog, Seq::<AppliedView>::empty()))
            == applied_after(catalog, Seq::<AppliedView>::empty()),
{
    let none = Seq::<AppliedView>::empty();
    lemma_fresh_store(catalog);
    lemma_up_to_date_after_run(catalog, none);
    lemma_run_twice(catalog, none);
}

} // verus!
