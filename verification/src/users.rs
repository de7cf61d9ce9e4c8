//! Which databases, tables, functions and stages a user may see, from the
//! grants of the user and of the roles that are in effect.

use vstd::prelude::*;

verus! {

/// Something that a privilege can be granted on.
#[derive(Clone, Debug, PartialEq, Eq)]
pub enum GrantObject {
    Global,
    Database(String, String),
    Table(String, String, String),
    UDF(String),
    Stage(String),
}

/// A grant object by the text of its names.
pub enum GrantView {
    Global,
    Database(Seq<char>, Seq<char>),
    Table(Seq<char>, Seq<char>, Seq<char>),
    UDF(Seq<char>),
    Stage(Seq<char>),
}

impl View for GrantObject {
    type V = GrantView;

    open spec fn view(&self) -> GrantView {
        match self {
            GrantObject::Global => GrantView::Global,
            GrantObject::Database(c, d) => GrantView::Database(c@, d@),
            GrantObject::Table(c, d, t) => GrantView::Table(c@, d@, t@),
            GrantObject::UDF(u) => GrantView::UDF(u@),
            GrantObject::Stage(s) => GrantView::Stage(s@),
        }
    }
}

/// One grant: the object that privileges were granted on.
#[derive(Clone, Debug, PartialEq, Eq)]
pub struct GrantEntry {
    pub object: GrantObject,
}

impl GrantEntry {
    pub fn new(object: GrantObject) -> (entry: GrantEntry)
        ensures
            entry.object == object,
    {
        GrantEntry { object }
    }

    pub fn object(&self) -> (object: &GrantObject)
        ensures
            *object == self.object,
    {
        &self.object
    }
}

/// The grants of one user or role.
#[derive(Clone, Debug, PartialEq, Eq)]
pub struct UserGrantSet {
    pub entries: Vec<GrantEntry>,
}

impl UserGrantSet {
    pub fn new(entries: Vec<GrantEntry>) -> (set: UserGrantSet)
        ensures
            set.entries == entries,
    {
        UserGrantSet { entries }
    }

    pub fn entries(&self) -> (entries: &Vec<GrantEntry>)
        ensures
            *entries == self.entries,
    {
        &self.entries
    }

    /// Whether the set grants something on `object`.
    pub open spec fn grants(&self, object: GrantView) -> bool {
        exists|i: int| 0 <= i < self.entries.len() && (#[trigger] self.entries[i]).object@ == object
    }
}

#[derive(Clone, Debug, PartialEq, Eq)]
pub struct UserInfo {
    pub name: String,
    pub grants: UserGrantSet,
}

#[derive(Clone, Debug, PartialEq, Eq)]
pub struct RoleInfo {
    pub name: String,
    pub grants: UserGrantSet,
}

/// Whether the user, or one of the roles, holds a grant on `object`.
pub open spec fn holds_grant(user: &UserInfo, roles: Seq<RoleInfo>, object: GrantView) -> bool {
    user.grants.grants(object) || exists|r: int|
        0 <= r < roles.len() && (#[trigger] roles[r]).grants.grants(object)
}

/// Whether a list of names holds `name`.
pub open spec fn lists_name(list: Seq<String>, name: Seq<char>) -> bool {
    exists|i: int| 0 <= i < list.len() && (#[trigger] list[i])@ == name
}

/// Whether a list of pairs of names holds the pair.
pub open spec fn lists_pair(list: Seq<(String, String)>, a: Seq<char>, b: Seq<char>) -> bool {
    exists|i: int| 0 <= i < list.len() && (#[trigger] list[i]).0@ == a && list[i].1@ == b
}

/// Whether a list of triples of names holds the triple.
pub open spec fn lists_triple(
    list: Seq<(String, String, String)>,
    a: Seq<char>,
    b: Seq<char>,
    c: Seq<char>,
) -> bool {
    exists|i: int|
        0 <= i < list.len() && (#[trigger] list[i]).0@ == a && list[i].1@ == b && list[i].2@ == c
}

/// No name occurs twice.
pub open spec fn distinct_names(list: Seq<String>) -> bool {
    forall|i: int, j: int| 0 <= i < j < list.len() ==> list[i]@ != list[j]@
}

/// No pair occurs twice.
pub open spec fn distinct_pairs(list: Seq<(String, String)>) -> bool {
    forall|i: int, j: int|
        0 <= i < j < list.len() ==> !(list[i].0@ == list[j].0@ && list[i].1@ == list[j].1@)
}

/// No triple occurs twice.
pub open spec fn distinct_triples(list: Seq<(String, String, String)>) -> bool {
    forall|i: int, j: int|
        0 <= i < j < list.len() ==> !(list[i].0@ == list[j].0@ && list[i].1@ == list[j].1@
            && list[i].2@ == list[j].2@)
}

fn has_name(list: &Vec<String>, name: &String) -> (found: bool)
    ensures
        found == lists_name(list@, name@),
{
    let mut i: usize = 0;
    while i < list.len()
        invariant
            i <= list.len(),
            forall|k: int| 0 <= k < i ==> (#[trigger] list[k])@ != name@,
        decreases list.len() - i,
    {
        if list[i] == *name {
            return true;
        }
        i = i + 1;
    }
    false
}

fn has_pair(list: &Vec<(String, String)>, a: &String, b: &String) -> (found: bool)
    ensures
        found == lists_pair(list@, a@, b@),
{
    let mut i: usize = 0;
    while i < list.len()
        invariant
            i <= list.len(),
            forall|k: int| 0 <= k < i ==> !((#[trigger] list[k]).0@ == a@ && list[k].1@ == b@),
        decreases list.len() - i,
    {
        if list[i].0 == *a && list[i].1 == *b {
            return true;
        }
        i = i + 1;
    }
    false
}

fn has_triple(list: &Vec<(String, String, String)>, a: &String, b: &String, c: &String) -> (found:
    bool)
    ensures
        found == lists_triple(list@, a@, b@, c@),
{
    let mut i: usize = 0;
    while i < list.len()
        invariant
            i <= list.len(),
            forall|k: int|
                0 <= k < i ==> !((#[trigger] list[k]).0@ == a@ && list[k].1@ == b@ && list[k].2@
                    == c@),
        decreases list.len() - i,
    {
        if list[i].0 == *a && list[i].1 == *b && list[i].2 == *c {
            return true;
        }
        i = i + 1;
    }
    false
}

/// Answers whether a user may see a database, table, function or stage.
/// It serves the statements that list them.
pub struct GrantObjectVisibilityChecker {
    granted_global: bool,
    granted_databases: Vec<(String, String)>,
    granted_tables: Vec<(String, String, String)>,
    extra_databases: Vec<(String, String)>,
    granted_udfs: Vec<String>,
    granted_stages: Vec<String>,
}

impl GrantObjectVisibilityChecker {
    /// Whether the checker has seen a grant on `object`.
    pub closed spec fn granted(&self, object: GrantView) -> bool {
        match object {
            GrantView::Global => self.granted_global,
            GrantView::Database(c, d) => lists_pair(self.granted_databases@, c, d),
            GrantView::Table(c, d, t) => lists_triple(self.granted_tables@, c, d, t),
            GrantView::UDF(u) => lists_name(self.granted_udfs@, u),
            GrantView::Stage(s) => lists_name(self.granted_stages@, s),
        }
    }

    /// Whether the checker has seen a grant on some table of the database.
    pub open spec fn table_granted_in(&self, catalog: Seq<char>, db: Seq<char>) -> bool {
        exists|t: Seq<char>| self.granted(GrantView::Table(catalog, db, t))
    }

    /// Each list holds an item once, and the databases listed for their
    /// tables are those of the tables granted.
    pub closed spec fn well_formed(&self) -> bool {
        &&& distinct_pairs(self.granted_databases@)
        &&& distinct_triples(self.granted_tables@)
        &&& distinct_pairs(self.extra_databases@)
        &&& distinct_names(self.granted_udfs@)
        &&& distinct_names(self.granted_stages@)
        &&& forall|c: Seq<char>, d: Seq<char>| #[trigger]
            lists_pair(self.extra_databases@, c, d) <==> (exists|i: int|
                0 <= i < self.granted_tables.len() && (#[trigger] self.granted_tables[i]).0@ == c
                    && self.granted_tables[i].1@ == d)
    }

    fn empty() -> (checker: GrantObjectVisibilityChecker)
        ensures
            checker.well_formed(),
            forall|g: GrantView| !checker.granted(g),
    {
        GrantObjectVisibilityChecker {
            granted_global: false,
            granted_databases: Vec::new(),
            granted_tables: Vec::new(),
            extra_databases: Vec::new(),
            granted_udfs: Vec::new(),
            granted_stages: Vec::new(),
        }
    }

    /// Takes note of one grant.
    fn note(&mut self, object: &GrantObject)
        requires
            old(self).well_formed(),
        ensures
            final(self).well_formed(),
            forall|g: GrantView| final(self).granted(g) == (old(self).granted(g) || g == object@),
    {
        match object {
            GrantObject::Global => {
                self.granted_global = true;
            },
            GrantObject::Database(catalog, db) => {
                if !has_pair(&self.granted_databases, catalog, db) {
                    let ghost before = self.granted_databases@;
                    self.granted_databases.push((catalog.clone(), db.clone()));
                    proof {
                        let after = self.granted_databases@;
                        assert forall|c: Seq<char>, d: Seq<char>| lists_pair(after, c, d) == (
                        lists_pair(before, c, d) || (c == catalog@ && d == db@)) by {
                            if lists_pair(before, c, d) {
                                let i = choose|i: int|
                                    0 <= i < before.len() && (#[trigger] before[i]).0@ == c
                                        && before[i].1@ == d;
                                assert(after[i].0@ == c && after[i].1@ == d);
                            }
                            if c == catalog@ && d == db@ {
                                assert(after[before.len() as int].0@ == c);
                            }
                        }
                    }
                }
            },
            GrantObject::Table(catalog, db, table) => {
                if !has_triple(&self.granted_tables, catalog, db, table) {
                    let ghost before = self.granted_tables@;
                    let ghost extra_before = self.extra_databases@;
                    self.granted_tables.push((catalog.clone(), db.clone(), table.clone()));
                    if !has_pair(&self.extra_databases, catalog, db) {
                        self.extra_databases.push((catalog.clone(), db.clone()));
                    }
                    proof {
                        let after = self.granted_tables@;
                        let extra_after = self.extra_databases@;
                        assert forall|c: Seq<char>, d: Seq<char>, t: Seq<char>|
                            lists_triple(after, c, d, t) == (lists_triple(before, c, d, t) || (c
                                == catalog@ && d == db@ && t == table@)) by {
                            if lists_triple(before, c, d, t) {
                                let i = choose|i: int|
                                    0 <= i < before.len() && (#[trigger] before[i]).0@ == c
                                        && before[i].1@ == d && before[i].2@ == t;
                                assert(after[i].0@ == c && after[i].1@ == d && after[i].2@ == t);
                            }
                            if c == catalog@ && d == db@ && t == table@ {
                                assert(after[before.len() as int].0@ == c);
                            }
                        }
                        assert forall|c: Seq<char>, d: Seq<char>| #[trigger]
                            lists_pair(extra_after, c, d) <==> (exists|i: int|
                                0 <= i < after.len() && (#[trigger] after[i]).0@ == c && after[i].1@
                                    == d) by {
                            if lists_pair(extra_after, c, d) {
                                let k = choose|k: int|
                                    0 <= k < extra_after.len() && (#[trigger] extra_after[k]).0@
                                        == c && extra_after[k].1@ == d;
                                if k < extra_before.len() {
                                    assert(extra_before[k].0@ == c && extra_before[k].1@ == d);
                                    assert(lists_pair(extra_before, c, d));
                                    let i = choose|i: int|
                                        0 <= i < before.len() && (#[trigger] before[i]).0@ == c
                                            && before[i].1@ == d;
                                    assert(after[i].0@ == c && after[i].1@ == d);
                                } else {
                                    assert(after[before.len() as int].0@ == c);
                                }
                            }
                            if exists|i: int|
                                0 <= i < after.len() && (#[trigger] after[i]).0@ == c && after[i].1@
                                    == d {
                                let i = choose|i: int|
                                    0 <= i < after.len() && (#[trigger] after[i]).0@ == c
                                        && after[i].1@ == d;
                                if i < before.len() {
                                    assert(before[i].0@ == c && before[i].1@ == d);
                                    assert(lists_pair(extra_before, c, d));
                                    let k = choose|k: int|
                                        0 <= k < extra_before.len() && (
                                        #[trigger] extra_before[k]).0@ == c && extra_before[k].1@
                                            == d;
                                    assert(extra_after[k].0@ == c && extra_after[k].1@ == d);
                                } else {
                                    if lists_pair(extra_before, c, d) {
                                        let k = choose|k: int|
                                            0 <= k < extra_before.len() && (
                                            #[trigger] extra_before[k]).0@ == c
                                                && extra_before[k].1@ == d;
                                        assert(extra_after[k].0@ == c && extra_after[k].1@ == d);
                                    } else {
                                        assert(extra_after[extra_before.len() as int].0@ == c);
                                    }
                                }
                            }
                        }
                    }
                }
            },
            GrantObject::UDF(udf) => {
                if !has_name(&self.granted_udfs, udf) {
                    let ghost before = self.granted_udfs@;
                    self.granted_udfs.push(udf.clone());
                    proof {
                        lemma_name_pushed(before, self.granted_udfs@, udf@);
                    }
                }
            },
            GrantObject::Stage(stage) => {
                if !has_name(&self.granted_stages, stage) {
                    let ghost before = self.granted_stages@;
                    self.granted_stages.push(stage.clone());
                    proof {
                        lemma_name_pushed(before, self.granted_stages@, stage@);
                    }
                }
            },
        }
    }

    /// Takes note of every grant of a set.
    fn note_all(&mut self, set: &UserGrantSet)
        requires
            old(self).well_formed(),
        ensures
            final(self).well_formed(),
            forall|g: GrantView| final(self).granted(g) == (old(self).granted(g) || set.grants(g)),
    {
        let mut i: usize = 0;
        while i < set.entries.len()
            invariant
                i <= set.entries.len(),
                self.well_formed(),
                forall|g: GrantView|
                    self.granted(g) == (old(self).granted(g) || exists|k: int|
                        0 <= k < i && (#[trigger] set.entries[k]).object@ == g),
            decreases set.entries.len() - i,
        {
            self.note(set.entries[i].object());
            proof {
                assert forall|g: GrantView|
                    self.granted(g) == (old(self).granted(g) || exists|k: int|
                        0 <= k < i + 1 && (#[trigger] set.entries[k]).object@ == g) by {
                    if exists|k: int| 0 <= k < i && (#[trigger] set.entries[k]).object@ == g {
                        let k = choose|k: int|
                            0 <= k < i && (#[trigger] set.entries[k]).object@ == g;
                        assert(0 <= k < i + 1 && set.entries[k].object@ == g);
                    }
                    if g == set.entries[i as int].object@ {
                        assert(0 <= i < i + 1 && set.entries[i as int].object@ == g);
                    }
                    if exists|k: int| 0 <= k < i + 1 && (#[trigger] set.entries[k]).object@ == g {
                        let k = choose|k: int|
                            0 <= k < i + 1 && (#[trigger] set.entries[k]).object@ == g;
                        if k < i {
                            assert(set.entries[k].object@ == g);
                        }
                    }
                }
            }
            i = i + 1;
        }
    }

    /// The checker for a user and the roles in effect: it has seen exactly
    /// the grants that the user or one of the roles holds.
    pub fn new(user: &UserInfo, available_roles: &Vec<RoleInfo>) -> (checker:
        GrantObjectVisibilityChecker)
        ensures
            checker.well_formed(),
            forall|g: GrantView| checker.granted(g) == holds_grant(user, available_roles@, g),
    {
        let mut checker = GrantObjectVisibilityChecker::empty();
        checker.note_all(&user.grants);
        let mut r: usize = 0;
        while r < available_roles.len()
            invariant
                r <= available_roles.len(),
                checker.well_formed(),
                forall|g: GrantView|
                    checker.granted(g) == (user.grants.grants(g) || exists|k: int|
                        0 <= k < r && (#[trigger] available_roles[k]).grants.grants(g)),
            decreases available_roles.len() - r,
        {
            checker.note_all(&available_roles[r].grants);
            proof {
                assert forall|g: GrantView|
                    checker.granted(g) == (user.grants.grants(g) || exists|k: int|
                        0 <= k < r + 1 && (#[trigger] available_roles[k]).grants.grants(g)) by {
                    if exists|k: int|
                        0 <= k < r && (#[trigger] available_roles[k]).grants.grants(g) {
                        let k = choose|k: int|
                            0 <= k < r && (#[trigger] available_roles[k]).grants.grants(g);
                        assert(0 <= k < r + 1 && available_roles[k].grants.grants(g));
                    }
                    if available_roles[r as int].grants.grants(g) {
                        assert(0 <= r < r + 1 && available_roles[r as int].grants.grants(g));
                    }
                    if exists|k: int|
                        0 <= k < r + 1 && (#[trigger] available_roles[k]).grants.grants(g) {
                        let k = choose|k: int|
                            0 <= k < r + 1 && (#[trigger] available_roles[k]).grants.grants(g);
                        if k < r {
                            assert(available_roles[k].grants.grants(g));
                        }
                    }
                }
            }
            r = r + 1;
        }
        checker
    }

    /// A stage is visible under a global grant or a grant on the stage.
    pub fn check_stage_visibility(&self, stage: &str) -> (visible: bool)
        ensures
            visible == (self.granted(GrantView::Global) || self.granted(GrantView::Stage(stage@))),
    {
        if self.granted_global {
            return true;
        }
        let name: String = stage.to_owned();
        if has_name(&self.granted_stages, &name) {
            return true;
        }
        false
    }

    /// A function is visible under a global grant or a grant on the function.
    pub fn check_udf_visibility(&self, udf: &str) -> (visible: bool)
        ensures
            visible == (self.granted(GrantView::Global) || self.granted(GrantView::UDF(udf@))),
    {
        if self.granted_global {
            return true;
        }
        let name: String = udf.to_owned();
        if has_name(&self.granted_udfs, &name) {
            return true;
        }
        false
    }

    /// A database is visible under a global grant, a grant on the database,
    /// or a grant on one of its tables.
    pub fn check_database_visibility(&self, catalog: &str, db: &str) -> (visible: bool)
        requires
            self.well_formed(),
        ensures
            visible == (self.granted(GrantView::Global) || self.granted(
                GrantView::Database(catalog@, db@),
            ) || self.table_granted_in(catalog@, db@)),
    {
        let c: String = catalog.to_owned();
        let d: String = db.to_owned();
        proof {
            if self.table_granted_in(catalog@, db@) {
                let t = choose|t: Seq<char>| self.granted(GrantView::Table(catalog@, db@, t));
                let i = choose|i: int|
                    0 <= i < self.granted_tables.len() && (#[trigger] self.granted_tables[i]).0@
                        == catalog@ && self.granted_tables[i].1@ == db@
                        && self.granted_tables[i].2@ == t;
                assert(self.granted_tables[i].0@ == catalog@ && self.granted_tables[i].1@ == db@);
                assert(lists_pair(self.extra_databases@, catalog@, db@));
            }
            if lists_pair(self.extra_databases@, catalog@, db@) {
                let i = choose|i: int|
                    0 <= i < self.granted_tables.len() && (#[trigger] self.granted_tables[i]).0@
                        == catalog@ && self.granted_tables[i].1@ == db@;
                assert(self.granted(
                    GrantView::Table(catalog@, db@, self.granted_tables[i].2@),
                ));
            }
        }
        if self.granted_global {
            return true;
        }
        if has_pair(&self.granted_databases, &c, &d) {
            return true;
        }
        if has_pair(&self.extra_databases, &c, &d) {
            return true;
        }
        false
    }

    /// A table is visible under a global grant, a grant on its database, or
    /// a grant on the table.
    pub fn check_table_visibility(&self, catalog: &str, database: &str, table: &str) -> (visible:
        bool)
        ensures
            visible == (self.granted(GrantView::Global) || self.granted(
                GrantView::Database(catalog@, database@),
            ) || self.granted(GrantView::Table(catalog@, database@, table@))),
    {
        if self.granted_global {
            return true;
        }
        let c: String = catalog.to_owned();
        let d: String = database.to_owned();
        let t: String = table.to_owned();
        if has_pair(&self.granted_databases, &c, &d) {
            return true;
        }
        if has_triple(&self.granted_tables, &c, &d, &t) {
            return true;
        }
        false
    }
}

proof fn lemma_name_pushed(before: Seq<String>, after: Seq<String>, name: Seq<char>)
    requires
        after.len() == before.len() + 1,
        forall|i: int| 0 <= i < before.len() ==> after[i] == before[i],
        after[before.len() as int]@ == name,
    ensures
        forall|n: Seq<char>| lists_name(after, n) == (lists_name(before, n) || n == name),
{
    assert forall|n: Seq<char>| lists_name(after, n) == (lists_name(before, n) || n == name) by {
        if lists_name(before, n) {
            let i = choose|i: int| 0 <= i < before.len() && (#[trigger] before[i])@ == n;
            assert(after[i]@ == n);
        }
        if n == name {
            assert(after[before.len() as int]@ == n);
        }
    }
}

} // verus!
