//! The persistence model: one row per participant name, holding the level,
//! the submitted game link, the "game played" flag and the cached skin, under
//! the keys `{name}/level`, `{name}/skin`, `{name}/game_link` and
//! `{name}/game_played` of the external key-value service. Reads of absent
//! rows yield documented defaults (level 0, no link, not played, no skin)
//! rather than errors; writes are upserts except where noted.
use vstd::prelude::*;
use crate::skin::Skin;

verus! {

pub struct DbRow {
    pub name: String,
    pub level: usize,
    pub game_link: Option<String>,
    pub game_played: bool,
    pub skin: Option<Skin>,
}

/// The first row whose name reads `name`, if any.
pub open spec fn find_row_spec(rows: Seq<DbRow>, name: Seq<char>) -> Option<DbRow>
    decreases rows.len(),
{
    if rows.len() == 0 {
        Option::None
    } else if rows[0].name@ == name {
        Option::Some(rows[0])
    } else {
        find_row_spec(rows.drop_first(), name)
    }
}

/// The level recorded for `name`; absent rows read as level 0.
pub open spec fn level_of(rows: Seq<DbRow>, name: Seq<char>) -> int {
    match find_row_spec(rows, name) {
        Option::Some(row) => row.level as int,
        Option::None => 0,
    }
}

/// The skin recorded for `name`, if any.
pub open spec fn skin_of(rows: Seq<DbRow>, name: Seq<char>) -> Option<Skin> {
    match find_row_spec(rows, name) {
        Option::Some(row) => row.skin,
        Option::None => Option::None,
    }
}

/// The game link recorded for `name`, if any.
pub open spec fn game_link_of(rows: Seq<DbRow>, name: Seq<char>) -> Option<String> {
    match find_row_spec(rows, name) {
        Option::Some(row) => row.game_link,
        Option::None => Option::None,
    }
}

/// Whether `name`'s submission was already played; absent rows read as false.
pub open spec fn game_played_of(rows: Seq<DbRow>, name: Seq<char>) -> bool {
    match find_row_spec(rows, name) {
        Option::Some(row) => row.game_played,
        Option::None => false,
    }
}

/// No two rows share a name.
pub open spec fn rows_unique(rows: Seq<DbRow>) -> bool {
    forall|i: int, j: int| 0 <= i < j < rows.len() ==> rows[i].name@ != rows[j].name@
}

proof fn lemma_find_row_at(rows: Seq<DbRow>, name: Seq<char>, k: int)
    requires
        0 <= k <= rows.len(),
        forall|j: int| 0 <= j < k ==> rows[j].name@ != name,
        k < rows.len() ==> rows[k].name@ == name,
    ensures
        find_row_spec(rows, name) == if k < rows.len() {
            Option::Some(rows[k])
        } else {
            Option::<DbRow>::None
        },
    decreases k,
{
    if rows.len() == 0 {
    } else if k == 0 {
    } else {
        lemma_find_row_at(rows.drop_first(), name, k - 1);
    }
}

proof fn lemma_find_row_none(rows: Seq<DbRow>, name: Seq<char>)
    requires
        find_row_spec(rows, name) is None,
    ensures
        forall|j: int| 0 <= j < rows.len() ==> rows[j].name@ != name,
    decreases rows.len(),
{
    if rows.len() > 0 {
        lemma_find_row_none(rows.drop_first(), name);
        assert forall|j: int| 0 <= j < rows.len() implies rows[j].name@ != name by {
            if j > 0 {
                assert(rows.drop_first()[j - 1] == rows[j]);
            }
        }
    }
}

proof fn lemma_find_row_update(rows: Seq<DbRow>, name: Seq<char>, k: int, row: DbRow)
    requires
        0 <= k < rows.len(),
        rows[k].name@ == row.name@,
        forall|j: int| 0 <= j < k ==> rows[j].name@ != row.name@,
    ensures
        find_row_spec(rows.update(k, row), row.name@) == Option::Some(row),
        forall|n2: Seq<char>|
            n2 != row.name@ ==> find_row_spec(rows.update(k, row), n2) == find_row_spec(rows, n2),
    decreases k,
{
    let rows2 = rows.update(k, row);
    if k == 0 {
        assert(rows2[0] == row);
        assert(find_row_spec(rows2, row.name@) == Option::Some(row));
        assert forall|n2: Seq<char>| n2 != row.name@ implies find_row_spec(rows2, n2)
            == find_row_spec(rows, n2) by {
            assert(rows2.drop_first() =~= rows.drop_first());
            assert(find_row_spec(rows2, n2) == find_row_spec(rows2.drop_first(), n2));
            assert(find_row_spec(rows, n2) == find_row_spec(rows.drop_first(), n2));
        }
    } else {
        lemma_find_row_update(rows.drop_first(), name, k - 1, row);
        assert(rows2.drop_first() =~= rows.drop_first().update(k - 1, row));
        assert(rows2[0] == rows[0]);
        assert(rows[0].name@ != row.name@);
        assert(find_row_spec(rows2, row.name@) == find_row_spec(rows2.drop_first(), row.name@));
        assert forall|n2: Seq<char>| n2 != row.name@ implies find_row_spec(rows2, n2)
            == find_row_spec(rows, n2) by {
            if rows[0].name@ == n2 {
                assert(find_row_spec(rows2, n2) == Option::Some(rows2[0]));
                assert(find_row_spec(rows, n2) == Option::Some(rows[0]));
            } else {
                assert(find_row_spec(rows2, n2) == find_row_spec(rows2.drop_first(), n2));
                assert(find_row_spec(rows, n2) == find_row_spec(rows.drop_first(), n2));
            }
        }
    }
}

proof fn lemma_find_row_push(rows: Seq<DbRow>, row: DbRow)
    requires
        find_row_spec(rows, row.name@) is None,
    ensures
        find_row_spec(rows.push(row), row.name@) == Option::Some(row),
        forall|n2: Seq<char>|
            n2 != row.name@ ==> find_row_spec(rows.push(row), n2) == find_row_spec(rows, n2),
    decreases rows.len(),
{
    let rows2 = rows.push(row);
    if rows.len() == 0 {
        assert(rows2[0] == row);
        assert(find_row_spec(rows2, row.name@) == Option::Some(row));
        assert forall|n2: Seq<char>| n2 != row.name@ implies find_row_spec(rows2, n2)
            == find_row_spec(rows, n2) by {
            assert(rows2.drop_first() =~= Seq::<DbRow>::empty());
            assert(find_row_spec(rows2, n2) == find_row_spec(rows2.drop_first(), n2));
        }
    } else {
        assert(rows[0].name@ != row.name@);
        lemma_find_row_push(rows.drop_first(), row);
        assert(rows2.drop_first() =~= rows.drop_first().push(row));
        assert(rows2[0] == rows[0]);
        assert(find_row_spec(rows2, row.name@) == find_row_spec(rows2.drop_first(), row.name@));
        assert forall|n2: Seq<char>| n2 != row.name@ implies find_row_spec(rows2, n2)
            == find_row_spec(rows, n2) by {
            if rows[0].name@ == n2 {
                assert(find_row_spec(rows2, n2) == Option::Some(rows2[0]));
                assert(find_row_spec(rows, n2) == Option::Some(rows[0]));
            } else {
                assert(find_row_spec(rows2, n2) == find_row_spec(rows2.drop_first(), n2));
                assert(find_row_spec(rows, n2) == find_row_spec(rows.drop_first(), n2));
            }
        }
    }
}

impl Skin {
    /// A field-for-field copy, so contracts can speak of exact equality.
    pub fn duplicate(&self) -> (r: Skin)
        ensures
            r == *self,
    {
        Skin {
            face: self.face.clone(),
            hat: self.hat.clone(),
            robe: self.robe.clone(),
            beard: self.beard.clone(),
            custom: match &self.custom {
                Option::Some(c) => Option::Some(c.clone()),
                Option::None => Option::None,
            },
            outfit_color: self.outfit_color,
        }
    }
}

impl DbRow {
    /// A fresh row for `name` with every field at its documented default.
    pub fn defaults(name: &str) -> (r: DbRow)
        ensures
            r.name@ == name@,
            r.level == 0,
            r.game_link is None,
            !r.game_played,
            r.skin is None,
    {
        DbRow {
            name: name.to_owned(),
            level: 0,
            game_link: Option::None,
            game_played: false,
            skin: Option::None,
        }
    }
}

pub struct Db {
    rows: Vec<DbRow>,
}

impl View for Db {
    type V = Seq<DbRow>;

    closed spec fn view(&self) -> Seq<DbRow> {
        self.rows@
    }
}

impl Db {
    pub open spec fn wf(self) -> bool {
        rows_unique(self@)
    }

    /// An empty store: every read yields its default.
    pub fn new() -> (r: Db)
        ensures
            r.wf(),
            r@.len() == 0,
    {
        Db { rows: Vec::new() }
    }

    /// How many rows the store holds.
    pub fn row_count(&self) -> (r: usize)
        ensures
            r == self@.len(),
    {
        self.rows.len()
    }

    /// Index of the row for `name`, if one exists.
    fn find_index(&self, name: &str) -> (r: Option<usize>)
        ensures
            match r {
                Option::Some(i) => i < self@.len() && self@[i as int].name@ == name@ && forall|
                    j: int,
                |
                    0 <= j < i ==> self@[j].name@ != name@,
                Option::None => find_row_spec(self@, name@) is None,
            },
            r is Some ==> find_row_spec(self@, name@) == Option::Some(
                self@[r.unwrap() as int],
            ),
    {
        let n = self.rows.len();
        let mut i: usize = 0;
        while i < n
            invariant
                n == self@.len(),
                0 <= i <= n,
                forall|j: int| 0 <= j < i ==> self@[j].name@ != name@,
            decreases n - i,
        {
            if crate::text::str_eq(self.rows[i].name.as_str(), name) {
                proof {
                    lemma_find_row_at(self@, name@, i as int);
                }
                return Option::Some(i);
            }
            i += 1;
        }
        proof {
            lemma_find_row_at(self@, name@, n as int);
        }
        Option::None
    }

    /// The recorded level, or 0 when nothing was recorded for `name`.
    pub fn find_level(&self, name: &str) -> (r: usize)
        ensures
            r == level_of(self@, name@),
    {
        match self.find_index(name) {
            Option::Some(i) => self.rows[i].level,
            Option::None => 0,
        }
    }

    /// Record `level` for `name`, creating the row if needed.
    pub fn set_level(&mut self, name: &str, level: usize)
        requires
            old(self).wf(),
        ensures
            final(self).wf(),
            level_of(final(self)@, name@) == level,
            match find_row_spec(final(self)@, name@) {
                Option::Some(row) => row.name@ == name@ && row.level == level && {
                    match find_row_spec(old(self)@, name@) {
                        Option::Some(prev) => row.game_link == prev.game_link && row.game_played
                            == prev.game_played && row.skin == prev.skin,
                        Option::None => row.game_link is None && !row.game_played
                            && row.skin is None,
                    }
                },
                Option::None => false,
            },
            forall|n2: Seq<char>|
                n2 != name@ ==> find_row_spec(final(self)@, n2) == find_row_spec(old(self)@, n2),
    {
        match self.find_index(name) {
            Option::Some(i) => {
                let ghost rows0 = self@;
                let prev = &self.rows[i];
                let row = DbRow {
                    name: prev.name.clone(),
                    level,
                    game_link: match &prev.game_link {
                        Option::Some(l) => Option::Some(l.clone()),
                        Option::None => Option::None,
                    },
                    game_played: prev.game_played,
                    skin: match &prev.skin {
                        Option::Some(s) => Option::Some(s.duplicate()),
                        Option::None => Option::None,
                    },
                };
                self.rows.set(i, row);
                proof {
                    lemma_find_row_at(rows0, name@, i as int);
                    lemma_find_row_update(rows0, name@, i as int, self@[i as int]);
                }
            },
            Option::None => {
                let mut row = DbRow::defaults(name);
                row.level = level;
                let ghost rows0 = self@;
                let ghost rowg = row;
                self.rows.push(row);
                proof {
                    lemma_find_row_push(rows0, rowg);
                    assert forall|i: int, j: int| 0 <= i < j < self@.len() implies self@[i].name@
                        != self@[j].name@ by {
                        if j < rows0.len() {
                        } else {
                            lemma_find_row_none(rows0, name@);
                        }
                    }
                }
            },
        }
    }

    /// The recorded game link, if any.
    pub fn find_game_link(&self, name: &str) -> (r: Option<String>)
        ensures
            match (r, game_link_of(self@, name@)) {
                (Option::Some(a), Option::Some(b)) => a == b,
                (Option::None, Option::None) => true,
                _ => false,
            },
    {
        match self.find_index(name) {
            Option::Some(i) => match &self.rows[i].game_link {
                Option::Some(l) => Option::Some(l.clone()),
                Option::None => Option::None,
            },
            Option::None => Option::None,
        }
    }

    /// Record (or clear) the game link for `name`, creating the row if needed.
    pub fn set_game_link(&mut self, name: &str, link: Option<&str>)
        requires
            old(self).wf(),
        ensures
            final(self).wf(),
            match (game_link_of(final(self)@, name@), link) {
                (Option::Some(a), Option::Some(b)) => a@ == b@,
                (Option::None, Option::None) => true,
                _ => false,
            },
            match find_row_spec(final(self)@, name@) {
                Option::Some(row) => row.name@ == name@ && {
                    match find_row_spec(old(self)@, name@) {
                        Option::Some(prev) => row.level == prev.level && row.game_played
                            == prev.game_played && row.skin == prev.skin,
                        Option::None => row.level == 0 && !row.game_played && row.skin is None,
                    }
                },
                Option::None => false,
            },
            forall|n2: Seq<char>|
                n2 != name@ ==> find_row_spec(final(self)@, n2) == find_row_spec(old(self)@, n2),
    {
        let new_link: Option<String> = match link {
            Option::Some(l) => Option::Some(l.to_owned()),
            Option::None => Option::None,
        };
        match self.find_index(name) {
            Option::Some(i) => {
                let ghost rows0 = self@;
                let prev = &self.rows[i];
                let row = DbRow {
                    name: prev.name.clone(),
                    level: prev.level,
                    game_link: new_link,
                    game_played: prev.game_played,
                    skin: match &prev.skin {
                        Option::Some(s) => Option::Some(s.duplicate()),
                        Option::None => Option::None,
                    },
                };
                self.rows.set(i, row);
                proof {
                    lemma_find_row_at(rows0, name@, i as int);
                    lemma_find_row_update(rows0, name@, i as int, self@[i as int]);
                }
            },
            Option::None => {
                let mut row = DbRow::defaults(name);
                row.game_link = new_link;
                let ghost rows0 = self@;
                let ghost rowg = row;
                self.rows.push(row);
                proof {
                    lemma_find_row_push(rows0, rowg);
                    assert forall|i: int, j: int| 0 <= i < j < self@.len() implies self@[i].name@
                        != self@[j].name@ by {
                        if j < rows0.len() {
                        } else {
                            lemma_find_row_none(rows0, name@);
                        }
                    }
                }
            },
        }
    }

    /// Whether `name`'s submission was already played; false when unknown.
    pub fn game_played(&self, name: &str) -> (r: bool)
        ensures
            r == game_played_of(self@, name@),
    {
        match self.find_index(name) {
            Option::Some(i) => self.rows[i].game_played,
            Option::None => false,
        }
    }

    /// Record the "played" flag; the row must already exist, as it does for
    /// any name whose link was just looked up successfully.
    pub fn set_game_played(&mut self, name: &str, played: bool)
        requires
            old(self).wf(),
            find_row_spec(old(self)@, name@) is Some,
        ensures
            final(self).wf(),
            game_played_of(final(self)@, name@) == played,
            match (find_row_spec(final(self)@, name@), find_row_spec(old(self)@, name@)) {
                (Option::Some(row), Option::Some(prev)) => row.name@ == name@ && row.level
                    == prev.level && row.game_link == prev.game_link && row.skin == prev.skin,
                _ => false,
            },
            forall|n2: Seq<char>|
                n2 != name@ ==> find_row_spec(final(self)@, n2) == find_row_spec(old(self)@, n2),
    {
        match self.find_index(name) {
            Option::Some(i) => {
                let ghost rows0 = self@;
                let prev = &self.rows[i];
                let row = DbRow {
                    name: prev.name.clone(),
                    level: prev.level,
                    game_link: match &prev.game_link {
                        Option::Some(l) => Option::Some(l.clone()),
                        Option::None => Option::None,
                    },
                    game_played: played,
                    skin: match &prev.skin {
                        Option::Some(s) => Option::Some(s.duplicate()),
                        Option::None => Option::None,
                    },
                };
                self.rows.set(i, row);
                proof {
                    lemma_find_row_at(rows0, name@, i as int);
                    lemma_find_row_update(rows0, name@, i as int, self@[i as int]);
                }
            },
            Option::None => {
                proof {
                    assert(false);
                }
            },
        }
    }

    /// Make sure a (default) row exists for `name`.
    pub fn enforce_guy_exists(&mut self, name: &str)
        requires
            old(self).wf(),
        ensures
            final(self).wf(),
            match find_row_spec(final(self)@, name@) {
                Option::Some(row) => row.name@ == name@ && {
                    match find_row_spec(old(self)@, name@) {
                        Option::Some(prev) => row == prev,
                        Option::None => row.level == 0 && row.game_link is None
                            && !row.game_played && row.skin is None,
                    }
                },
                Option::None => false,
            },
            forall|n2: Seq<char>|
                n2 != name@ ==> find_row_spec(final(self)@, n2) == find_row_spec(old(self)@, n2),
    {
        match self.find_index(name) {
            Option::Some(_) => {},
            Option::None => {
                let row = DbRow::defaults(name);
                let ghost rows0 = self@;
                let ghost rowg = row;
                self.rows.push(row);
                proof {
                    lemma_find_row_push(rows0, rowg);
                    assert forall|i: int, j: int| 0 <= i < j < self@.len() implies self@[i].name@
                        != self@[j].name@ by {
                        if j < rows0.len() {
                        } else {
                            lemma_find_row_none(rows0, name@);
                        }
                    }
                }
            },
        }
    }

    /// The cached skin for `name`, exactly as recorded.
    pub fn find_skin(&self, name: &str) -> (r: Option<Skin>)
        ensures
            r == skin_of(self@, name@),
    {
        match self.find_index(name) {
            Option::Some(i) => match &self.rows[i].skin {
                Option::Some(s) => Option::Some(s.duplicate()),
                Option::None => Option::None,
            },
            Option::None => Option::None,
        }
    }

    /// Record `skin` for `name`, creating the row if needed. Reading the same
    /// name back afterwards yields this identical skin.
    pub fn set_skin(&mut self, name: &str, skin: &Skin)
        requires
            old(self).wf(),
        ensures
            final(self).wf(),
            skin_of(final(self)@, name@) == Option::Some(*skin),
            match find_row_spec(final(self)@, name@) {
                Option::Some(row) => row.name@ == name@ && {
                    match find_row_spec(old(self)@, name@) {
                        Option::Some(prev) => row.level == prev.level && row.game_link
                            == prev.game_link && row.game_played == prev.game_played,
                        Option::None => row.level == 0 && row.game_link is None
                            && !row.game_played,
                    }
                },
                Option::None => false,
            },
            forall|n2: Seq<char>|
                n2 != name@ ==> find_row_spec(final(self)@, n2) == find_row_spec(old(self)@, n2),
    {
        match self.find_index(name) {
            Option::Some(i) => {
                let ghost rows0 = self@;
                let prev = &self.rows[i];
                let row = DbRow {
                    name: prev.name.clone(),
                    level: prev.level,
                    game_link: match &prev.game_link {
                        Option::Some(l) => Option::Some(l.clone()),
                        Option::None => Option::None,
                    },
                    game_played: prev.game_played,
                    skin: Option::Some(skin.duplicate()),
                };
                self.rows.set(i, row);
                proof {
                    lemma_find_row_at(rows0, name@, i as int);
                    lemma_find_row_update(rows0, name@, i as int, self@[i as int]);
                }
            },
            Option::None => {
                let mut row = DbRow::defaults(name);
                row.skin = Option::Some(skin.duplicate());
                let ghost rows0 = self@;
                let ghost rowg = row;
                self.rows.push(row);
                proof {
                    lemma_find_row_push(rows0, rowg);
                    assert forall|i: int, j: int| 0 <= i < j < self@.len() implies self@[i].name@
                        != self@[j].name@ by {
                        if j < rows0.len() {
                        } else {
                            lemma_find_row_none(rows0, name@);
                        }
                    }
                }
            },
        }
    }
}

} // verus!
