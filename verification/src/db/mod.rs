//! The persistent side of the vault: token records and schema bookkeeping.
//!
//! [`MemoryDb`] keeps both in memory. It is the reference for what a store
//! does: whatever keeps the records durably answers as it does.

use vstd::prelude::*;

use crate::error::Error;
use migrate::{
    applied_after, applied_views, catalog_views, has_mismatch, has_pending, AppliedMigration,
    AppliedView, Migration, MigrationView,
};
use tokens::{Token, TokenData, TokenDataView, TokenListItem, TokenListItemView, TokenView};

pub mod migrate;
pub mod tokens;

verus! {

/// Whether some row of `rows` has the identifier `id`.
pub open spec fn holds(rows: Seq<Token>, id: u64) -> bool {
    exists|i: int| 0 <= i < rows.len() && (#[trigger] rows[i]).id == id
}

/// Whether `list` is the listing of `tokens`: one line for each token, in
/// ascending order of the identifiers.
pub open spec fn lists(list: Seq<TokenListItemView>, tokens: Map<u64, TokenDataView>) -> bool {
    &&& forall|i: int, j: int| 0 <= i < j < list.len() ==> list[i].id < list[j].id
    &&& forall|i: int|
        0 <= i < list.len() ==> tokens.contains_key(#[trigger] list[i].id) && list[i] == (
        TokenView { id: list[i].id, data: tokens[list[i].id] }).list_item()
    &&& forall|id: u64| #[trigger]
        tokens.contains_key(id) ==> exists|i: int| 0 <= i < list.len() && (#[trigger] list[i]).id
            == id
}

/// The lines of a listing, as mathematical values.
pub open spec fn list_views(list: Seq<TokenListItem>) -> Seq<TokenListItemView> {
    Seq::new(list.len(), |i: int| list[i]@)
}

/// A store that lives in memory.
pub struct MemoryDb {
    catalog: Vec<Migration>,
    applied: Vec<AppliedMigration>,
    /// The tokens in ascending order of their identifiers.
    rows: Vec<Token>,
    model: Ghost<Map<u64, TokenDataView>>,
}

impl MemoryDb {
    /// The invariant of the store: the rows stand in strictly ascending
    /// order of their identifiers and are what [`MemoryDb::tokens`] holds.
    pub closed spec fn valid(&self) -> bool {
        &&& forall|i: int, j: int|
            0 <= i < j < self.rows@.len() ==> self.rows@[i].id < self.rows@[j].id
        &&& forall|i: int|
            0 <= i < self.rows@.len() ==> self.model@.contains_key(#[trigger] self.rows@[i].id)
                && self.model@[self.rows@[i].id] == self.rows@[i].data@
        &&& forall|id: u64| #[trigger] self.model@.contains_key(id) ==> holds(self.rows@, id)
    }

    /// The tokens held, by identifier.
    pub closed spec fn tokens(&self) -> Map<u64, TokenDataView> {
        self.model@
    }

    /// The catalog of migrations that the store was made with.
    pub closed spec fn catalog(&self) -> Seq<MigrationView> {
        catalog_views(self.catalog@)
    }

    /// The records of the migrations applied so far.
    pub closed spec fn applied(&self) -> Seq<AppliedView> {
        applied_views(self.applied@)
    }

    /// An empty store that knows `catalog`: no token, nothing applied.
    pub fn new(catalog: Vec<Migration>) -> (db: MemoryDb)
        ensures
            db.valid(),
            db.catalog() == catalog_views(catalog@),
            db.applied() == Seq::<AppliedView>::empty(),
            db.tokens() == Map::<u64, TokenDataView>::empty(),
    {
        let db = MemoryDb {
            catalog,
            applied: Vec::new(),
            rows: Vec::new(),
            model: Ghost(Map::empty()),
        };
        assert(db.applied() =~= Seq::<AppliedView>::empty());
        db
    }

    /// Whether the store lacks a migration of its catalog; a mismatch is
    /// fatal.
    pub fn is_migration_available(&self) -> (res: Result<bool, Error>)
        ensures
            match res {
                Ok(available) => !has_mismatch(self.catalog(), self.applied()) && available
                    == has_pending(self.catalog(), self.applied()),
                Err(error) => has_mismatch(self.catalog(), self.applied())
                    && error is MigrationError,
            },
    {
        migrate::is_migration_available(&self.catalog, &self.applied)
    }

    /// Applies every pending migration in the order of the catalog. With a
    /// mismatch nothing is applied. The tokens stay as they are.
    pub fn run_migration(&mut self) -> (res: Result<(), Error>)
        requires
            old(self).valid(),
        ensures
            final(self).valid(),
            final(self).catalog() == old(self).catalog(),
            final(self).tokens() == old(self).tokens(),
            match res {
                Ok(_) => {
                    &&& !has_mismatch(old(self).catalog(), old(self).applied())
                    &&& final(self).applied() == applied_after(
                        old(self).catalog(),
                        old(self).applied(),
                    )
                },
                Err(error) => has_mismatch(old(self).catalog(), old(self).applied())
                    && error is MigrationError && final(self).applied() == old(self).applied(),
            },
    {
        migrate::run_migration(&self.catalog, &mut self.applied)
    }

    /// Empties the store: no token and no record is left. The catalog
    /// stays.
    pub fn reset_database(&mut self) -> (res: Result<(), Error>)
        ensures
            final(self).valid(),
            final(self).catalog() == old(self).catalog(),
            res is Ok,
            final(self).applied() == Seq::<AppliedView>::empty(),
            final(self).tokens() == Map::<u64, TokenDataView>::empty(),
    {
        self.applied = Vec::new();
        self.rows = Vec::new();
        self.model = Ghost(Map::empty());
        assert(self.applied() =~= Seq::<AppliedView>::empty());
        Ok(())
    }

    /// The place of the first row whose identifier is not below `id`.
    fn position(&self, id: u64) -> (at: usize)
        requires
            self.valid(),
        ensures
            at <= self.rows@.len(),
            forall|i: int| 0 <= i < at ==> self.rows@[i].id < id,
            forall|i: int| at <= i < self.rows@.len() ==> self.rows@[i].id >= id,
            self.tokens().contains_key(id) <==> at < self.rows@.len() && self.rows@[at as int].id
                == id,
    {
        let mut at: usize = 0;
        while at < self.rows.len() && self.rows[at].id < id
            invariant
                self.valid(),
                at <= self.rows@.len(),
                forall|i: int| 0 <= i < at ==> self.rows@[i].id < id,
            decreases self.rows@.len() - at,
        {
            at = at + 1;
        }
        proof {
            if self.model@.contains_key(id) {
                assert(holds(self.rows@, id));
            }
            if at < self.rows@.len() && self.rows@[at as int].id == id {
                assert(self.model@.contains_key(self.rows@[at as int].id));
            }
        }
        at
    }

    /// Keeps `token` under `id`.
    ///
    /// The store does not hand out identifiers. It refuses one that it
    /// already holds, and is then what it was.
    pub fn add_token(&mut self, id: u64, token: TokenData) -> (res: Result<u64, Error>)
        requires
            old(self).valid(),
        ensures
            final(self).valid(),
            final(self).catalog() == old(self).catalog(),
            final(self).applied() == old(self).applied(),
            match res {
                Ok(given) => {
                    &&& given == id
                    &&& !old(self).tokens().contains_key(id)
                    &&& final(self).tokens() == old(self).tokens().insert(id, token@)
                },
                Err(error) => error is InternalError && old(self).tokens().contains_key(id)
                    && final(self).tokens() == old(self).tokens(),
            },
    {
        let at = self.position(id);
        if at < self.rows.len() && self.rows[at].id == id {
            return Err(Error::internal("a token with this id exists"));
        }
        let ghost before = self.rows@;
        let ghost data = token@;
        self.rows.insert(at, Token { id, data: token });
        self.model = Ghost(self.model@.insert(id, data));
        proof {
            let after = self.rows@;
            assert forall|i: int, j: int| 0 <= i < j < after.len() implies after[i].id
                < after[j].id by {
                if i < at && j > at {
                    assert(after[j] == before[j - 1]);
                } else if i > at {
                    assert(after[i] == before[i - 1]);
                    assert(after[j] == before[j - 1]);
                }
            }
            assert forall|i: int| 0 <= i < after.len() implies self.model@.contains_key(
                #[trigger] after[i].id,
            ) && self.model@[after[i].id] == after[i].data@ by {
                if i < at {
                    assert(after[i] == before[i]);
                } else if i > at {
                    assert(after[i] == before[i - 1]);
                }
            }
            assert forall|other: u64| #[trigger] self.model@.contains_key(other) implies holds(
                after,
                other,
            ) by {
                if other == id {
                    assert(after[at as int].id == id);
                } else {
                    assert(holds(before, other));
                    let i = choose|i: int| 0 <= i < before.len() && (#[trigger] before[i]).id
                        == other;
                    if i < at {
                        assert(after[i].id == other);
                    } else {
                        assert(after[i + 1].id == other);
                    }
                }
            }
        }
        Ok(id)
    }

    /// Drops the token `id`. Dropping a token that is not held changes
    /// nothing and is no failure.
    pub fn remove_token(&mut self, id: u64) -> (res: Result<(), Error>)
        requires
            old(self).valid(),
        ensures
            final(self).valid(),
            final(self).catalog() == old(self).catalog(),
            final(self).applied() == old(self).applied(),
            res is Ok,
            final(self).tokens() == old(self).tokens().remove(id),
    {
        let at = self.position(id);
        if at < self.rows.len() && self.rows[at].id == id {
            let ghost before = self.rows@;
            self.rows.remove(at);
            self.model = Ghost(self.model@.remove(id));
            proof {
                let after = self.rows@;
                assert forall|i: int| 0 <= i < after.len() implies self.model@.contains_key(
                    #[trigger] after[i].id,
                ) && self.model@[after[i].id] == after[i].data@ by {
                    if i < at {
                        assert(after[i] == before[i]);
                    } else {
                        assert(after[i] == before[i + 1]);
                    }
                }
                assert forall|other: u64| #[trigger]
                    self.model@.contains_key(other) implies holds(after, other) by {
                    assert(holds(before, other));
                    let i = choose|i: int| 0 <= i < before.len() && (#[trigger] before[i]).id
                        == other;
                    if i < at {
                        assert(after[i].id == other);
                    } else {
                        assert(after[i - 1].id == other);
                    }
                }
            }
        } else {
            assert(self.model@.remove(id) =~= self.model@);
        }
        Ok(())
    }

    /// The listing of the tokens, in ascending order of their identifiers.
    pub fn list_tokens(&self) -> (res: Result<Vec<TokenListItem>, Error>)
        requires
            self.valid(),
        ensures
            res matches Ok(list) && lists(list_views(list@), self.tokens()),
    {
        let mut list: Vec<TokenListItem> = Vec::new();
        let mut at: usize = 0;
        while at < self.rows.len()
            invariant
                at <= self.rows@.len(),
                list@.len() == at,
                forall|i: int| 0 <= i < at ==> (#[trigger] list@[i])@ == self.rows@[i]@.list_item(),
            decreases self.rows@.len() - at,
        {
            list.push(self.rows[at].list_item());
            at = at + 1;
        }
        proof {
            let views = list_views(list@);
            assert forall|i: int| 0 <= i < views.len() implies views[i] == self.rows@[i]@.list_item() by {
                assert(list@[i]@ == self.rows@[i]@.list_item());
            }
            assert forall|i: int| 0 <= i < views.len() implies self.model@.contains_key(
                #[trigger] views[i].id,
            ) && views[i] == (TokenView {
                id: views[i].id,
                data: self.model@[views[i].id],
            }).list_item() by {
                assert(self.model@.contains_key(self.rows@[i].id));
            }
            assert forall|id: u64| #[trigger] self.model@.contains_key(id) implies exists|i: int|
                0 <= i < views.len() && (#[trigger] views[i]).id == id by {
                assert(holds(self.rows@, id));
                let i = choose|i: int| 0 <= i < self.rows@.len() && (#[trigger] self.rows@[i]).id
                    == id;
                assert(views[i].id == id);
            }
        }
        Ok(list)
    }

    /// The token `id`, if it is held.
    pub fn token_detail(&self, id: u64) -> (res: Result<Option<Token>, Error>)
        requires
            self.valid(),
        ensures
            match res {
                Ok(Some(token)) => self.tokens().contains_key(id) && token@ == (TokenView {
                    id,
                    data: self.tokens()[id],
                }),
                Ok(None) => !self.tokens().contains_key(id),
                Err(_) => false,
            },
    {
        let at = self.position(id);
        if at < self.rows.len() && self.rows[at].id == id {
            assert(self.model@.contains_key(self.rows@[at as int].id));
            Ok(Some(self.rows[at].duplicate()))
        } else {
            Ok(None)
        }
    }
}

} // verus!
