//! Runtime lookup of tables, fields and relationships, following the
//! inheritance chain that `extends` declares.

use vstd::prelude::*;
use crate::error::Error;
use crate::schema::definition::{
    FieldDef, FieldDefView, RelationshipDef, RelationshipView, SchemaDefinition, SchemaOverlay,
    TableDef, TableView,
};
use crate::schema::loader::{load_bundled_definition, merge_overlay, spec_bundled_tables, spec_known_release, spec_merge};
use crate::model::value::opt_str_view;
use crate::model::json::spec_parse_json;
use crate::schema::json_format::{load_overlay_from_str, spec_overlay};
use crate::text::{owned, str_eq};

verus! {

/// Whether a name is among the names of a list of relationships.
fn has_name(v: &Vec<(&str, &RelationshipDef)>, name: &str) -> (r: bool)
    ensures
        r == exists|i: int| 0 <= i < v@.len() && v@[i].0@ == name@,
{
    let n = v.len();
    let mut i: usize = 0;
    while i < n
        invariant
            0 <= i <= n == v@.len(),
            forall|j: int| 0 <= j < i ==> v@[j].0@ != name@,
        decreases n - i,
    {
        if str_eq(v[i].0, name) {
            return true;
        }
        i = i + 1;
    }
    false
}

/// A field found on `table` or, failing that, on its ancestors, visiting at
/// most `fuel` tables.
pub open spec fn spec_chain_field(
    tables: Map<Seq<char>, TableView>,
    table: Seq<char>,
    field: Seq<char>,
    fuel: nat,
) -> Option<FieldDefView>
    decreases fuel,
{
    if fuel == 0 || !tables.contains_key(table) {
        None
    } else if tables[table].2.contains_key(field) {
        Some(tables[table].2[field])
    } else {
        match tables[table].1 {
            Some(parent) => spec_chain_field(tables, parent, field, (fuel - 1) as nat),
            None => None,
        }
    }
}

/// A relationship found on `table` or, failing that, on its ancestors,
/// visiting at most `fuel` tables.
pub open spec fn spec_chain_relationship(
    tables: Map<Seq<char>, TableView>,
    table: Seq<char>,
    rel: Seq<char>,
    fuel: nat,
) -> Option<RelationshipView>
    decreases fuel,
{
    if fuel == 0 || !tables.contains_key(table) {
        None
    } else if tables[table].3.contains_key(rel) {
        Some(tables[table].3[rel])
    } else {
        match tables[table].1 {
            Some(parent) => spec_chain_relationship(tables, parent, rel, (fuel - 1) as nat),
            None => None,
        }
    }
}

/// The tables an inheritance walk from `table` visits, following `extends`,
/// in at most `fuel` steps; it stops at a name that is not a table.
pub open spec fn spec_walk(tables: Map<Seq<char>, TableView>, table: Seq<char>, fuel: nat) -> Seq<Seq<char>>
    decreases fuel,
{
    if fuel == 0 || !tables.contains_key(table) {
        Seq::empty()
    } else {
        seq![table] + match tables[table].1 {
            Some(parent) => spec_walk(tables, parent, (fuel - 1) as nat),
            None => Seq::empty(),
        }
    }
}

proof fn lemma_walk_in_tables(tables: Map<Seq<char>, TableView>, table: Seq<char>, fuel: nat)
    ensures
        forall|i: int| 0 <= i < spec_walk(tables, table, fuel).len() ==> tables.contains_key(
            #[trigger] spec_walk(tables, table, fuel)[i],
        ),
    decreases fuel,
{
    if fuel > 0 && tables.contains_key(table) {
        match tables[table].1 {
            Some(parent) => {
                lemma_walk_in_tables(tables, parent, (fuel - 1) as nat);
                let w = spec_walk(tables, table, fuel);
                let rest = spec_walk(tables, parent, (fuel - 1) as nat);
                assert forall|i: int| 0 <= i < w.len() implies tables.contains_key(#[trigger] w[i]) by {
                    if i > 0 {
                        assert(w[i] == rest[i - 1]);
                    }
                }
            },
            None => {},
        }
    }
}

/// A walk with less fuel is a prefix of a walk with more.
proof fn lemma_walk_prefix(tables: Map<Seq<char>, TableView>, table: Seq<char>, k: nat, m: nat)
    requires
        k <= m,
    ensures
        spec_walk(tables, table, k) == spec_walk(tables, table, m).take(spec_walk(tables, table, k).len() as int),
        spec_walk(tables, table, k).len() <= spec_walk(tables, table, m).len(),
        spec_walk(tables, table, m).len() <= m,
    decreases k,
{
    lemma_walk_len(tables, table, m);
    if k == 0 {
        assert(spec_walk(tables, table, m).take(0) =~= Seq::<Seq<char>>::empty());
    } else if tables.contains_key(table) {
        match tables[table].1 {
            Some(parent) => {
                lemma_walk_prefix(tables, parent, (k - 1) as nat, (m - 1) as nat);
                let a = spec_walk(tables, parent, (k - 1) as nat);
                let b = spec_walk(tables, parent, (m - 1) as nat);
                assert(spec_walk(tables, table, k) == seq![table] + a);
                assert(spec_walk(tables, table, m) == seq![table] + b);
                assert(seq![table] + a =~= (seq![table] + b).take(a.len() + 1int));
            },
            None => {
                assert(spec_walk(tables, table, k) =~= seq![table]);
                assert(spec_walk(tables, table, m) =~= seq![table]);
                assert(seq![table].take(1) =~= seq![table]);
            },
        }
    }
}

proof fn lemma_walk_len(tables: Map<Seq<char>, TableView>, table: Seq<char>, m: nat)
    ensures
        spec_walk(tables, table, m).len() <= m,
    decreases m,
{
    if m > 0 && tables.contains_key(table) {
        match tables[table].1 {
            Some(parent) => lemma_walk_len(tables, parent, (m - 1) as nat),
            None => {},
        }
    }
}

/// The walk from the `i`-th table of a walk is the rest of that walk.
proof fn lemma_walk_shift(tables: Map<Seq<char>, TableView>, table: Seq<char>, m: nat, i: int)
    requires
        0 <= i < spec_walk(tables, table, m).len(),
    ensures
        i <= m,
        spec_walk(tables, spec_walk(tables, table, m)[i], (m - i) as nat) == spec_walk(tables, table, m).skip(i),
    decreases i,
{
    let w = spec_walk(tables, table, m);
    lemma_walk_len(tables, table, m);
    if i == 0 {
        assert(w[0] == table);
        assert(w.skip(0) =~= w);
    } else {
        match tables[table].1 {
            Some(parent) => {
                let rest = spec_walk(tables, parent, (m - 1) as nat);
                assert(w == seq![table] + rest);
                lemma_walk_shift(tables, parent, (m - 1) as nat, i - 1);
                assert(w[i] == rest[i - 1]);
                assert(w.skip(i) =~= rest.skip(i - 1));
            },
            None => {
                assert(w =~= seq![table]);
            },
        }
    }
}

/// A table that the walk visits first among those of which `hit` holds comes
/// within the first `n` tables, `n` the number of tables: a walk that runs
/// into a cycle meets every table of it before it repeats one.
proof fn lemma_first_hit_is_early(
    tables: Map<Seq<char>, TableView>,
    table: Seq<char>,
    m: nat,
    i: int,
    hit: spec_fn(Seq<char>) -> bool,
)
    requires
        tables.dom().finite(),
        0 <= i < spec_walk(tables, table, m).len(),
        hit(spec_walk(tables, table, m)[i]),
        forall|j: int| 0 <= j < i ==> !hit(#[trigger] spec_walk(tables, table, m)[j]),
    ensures
        i < tables.dom().len(),
{
    let w = spec_walk(tables, table, m);
    let s = w.take(i + 1);
    if i >= tables.dom().len() {
        lemma_walk_in_tables(tables, table, m);
        if s.no_duplicates() {
            s.unique_seq_to_set();
            assert forall|x: Seq<char>| s.to_set().contains(x) implies tables.dom().contains(x) by {
                let j = choose|j: int| 0 <= j < s.len() && s[j] == x;
                assert(s[j] == w[j]);
            }
            vstd::set_lib::lemma_len_subset(s.to_set(), tables.dom());
            assert(false);
        }
        let (a0, b0) = choose|a0: int, b0: int| 0 <= a0 < s.len() && 0 <= b0 < s.len() && a0 != b0 && s[a0] == s[b0];
        let a = if a0 < b0 { a0 } else { b0 };
        let b = if a0 < b0 { b0 } else { a0 };
        assert(w[a] == w[b]) by {
            assert(s[a0] == w[a0]);
            assert(s[b0] == w[b0]);
        }
        lemma_walk_shift(tables, table, m, a);
        lemma_walk_shift(tables, table, m, b);
        lemma_walk_prefix(tables, w[a], (m - b) as nat, (m - a) as nat);
        let wa = spec_walk(tables, w[a], (m - a) as nat);
        let wb = spec_walk(tables, w[a], (m - b) as nat);
        assert(wb == w.skip(b));
        assert(wa == w.skip(a));
        assert(wb[i - b] == w[i]);
        assert(wb[i - b] == wa[i - b]);
        assert(wa[i - b] == w[a + i - b]);
        assert(!hit(w[a + i - b]));
    }
}

/// A field that a lookup finds sits at a table of the walk before which no
/// table holds it, and any larger fuel than that table's place finds it too.
proof fn lemma_field_found(tables: Map<Seq<char>, TableView>, table: Seq<char>, field: Seq<char>, m: nat)
    requires
        spec_chain_field(tables, table, field, m).is_some(),
    ensures
        exists|i: int| {
            &&& 0 <= i < spec_walk(tables, table, m).len()
            &&& tables[#[trigger] spec_walk(tables, table, m)[i]].2.contains_key(field)
            &&& forall|j: int| 0 <= j < i ==> !tables[#[trigger] spec_walk(tables, table, m)[j]].2.contains_key(field)
            &&& forall|k: nat| k > i ==> #[trigger] spec_chain_field(tables, table, field, k)
                == spec_chain_field(tables, table, field, m)
        },
    decreases m,
{
    let w = spec_walk(tables, table, m);
    if tables[table].2.contains_key(field) {
        assert(w[0] == table);
        assert forall|k: nat| k > 0 implies #[trigger] spec_chain_field(tables, table, field, k)
            == spec_chain_field(tables, table, field, m) by {}
    } else {
        let parent = tables[table].1.unwrap();
        let rest = spec_walk(tables, parent, (m - 1) as nat);
        assert(w == seq![table] + rest);
        lemma_field_found(tables, parent, field, (m - 1) as nat);
        let i0 = choose|i0: int| {
            &&& 0 <= i0 < rest.len()
            &&& tables[#[trigger] rest[i0]].2.contains_key(field)
            &&& forall|j: int| 0 <= j < i0 ==> !tables[#[trigger] rest[j]].2.contains_key(field)
            &&& forall|k: nat| k > i0 ==> #[trigger] spec_chain_field(tables, parent, field, k)
                == spec_chain_field(tables, parent, field, (m - 1) as nat)
        };
        let i = i0 + 1;
        assert(w[i] == rest[i0]);
        assert forall|j: int| 0 <= j < i implies !tables[#[trigger] w[j]].2.contains_key(field) by {
            if j > 0 {
                assert(w[j] == rest[j - 1]);
            }
        }
        assert forall|k: nat| k > i implies #[trigger] spec_chain_field(tables, table, field, k)
            == spec_chain_field(tables, table, field, m) by {
            assert(spec_chain_field(tables, parent, field, (k - 1) as nat)
                == spec_chain_field(tables, parent, field, (m - 1) as nat));
        }
    }
}

/// The same for relationships.
proof fn lemma_relationship_found(tables: Map<Seq<char>, TableView>, table: Seq<char>, rel: Seq<char>, m: nat)
    requires
        spec_chain_relationship(tables, table, rel, m).is_some(),
    ensures
        exists|i: int| {
            &&& 0 <= i < spec_walk(tables, table, m).len()
            &&& tables[#[trigger] spec_walk(tables, table, m)[i]].3.contains_key(rel)
            &&& forall|j: int| 0 <= j < i ==> !tables[#[trigger] spec_walk(tables, table, m)[j]].3.contains_key(rel)
            &&& forall|k: nat| k > i ==> #[trigger] spec_chain_relationship(tables, table, rel, k)
                == spec_chain_relationship(tables, table, rel, m)
        },
    decreases m,
{
    let w = spec_walk(tables, table, m);
    if tables[table].3.contains_key(rel) {
        assert(w[0] == table);
        assert forall|k: nat| k > 0 implies #[trigger] spec_chain_relationship(tables, table, rel, k)
            == spec_chain_relationship(tables, table, rel, m) by {}
    } else {
        let parent = tables[table].1.unwrap();
        let rest = spec_walk(tables, parent, (m - 1) as nat);
        assert(w == seq![table] + rest);
        lemma_relationship_found(tables, parent, rel, (m - 1) as nat);
        let i0 = choose|i0: int| {
            &&& 0 <= i0 < rest.len()
            &&& tables[#[trigger] rest[i0]].3.contains_key(rel)
            &&& forall|j: int| 0 <= j < i0 ==> !tables[#[trigger] rest[j]].3.contains_key(rel)
            &&& forall|k: nat| k > i0 ==> #[trigger] spec_chain_relationship(tables, parent, rel, k)
                == spec_chain_relationship(tables, parent, rel, (m - 1) as nat)
        };
        let i = i0 + 1;
        assert(w[i] == rest[i0]);
        assert forall|j: int| 0 <= j < i implies !tables[#[trigger] w[j]].3.contains_key(rel) by {
            if j > 0 {
                assert(w[j] == rest[j - 1]);
            }
        }
        assert forall|k: nat| k > i implies #[trigger] spec_chain_relationship(tables, table, rel, k)
            == spec_chain_relationship(tables, table, rel, m) by {
            assert(spec_chain_relationship(tables, parent, rel, (k - 1) as nat)
                == spec_chain_relationship(tables, parent, rel, (m - 1) as nat));
        }
    }
}

/// The number of tables is always fuel enough: a lookup along the `extends`
/// chain that may visit more tables finds the same field and the same
/// relationship, the first one along the chain. This holds of a chain that
/// runs into a cycle too: a name that none of its tables holds is found with
/// no amount of fuel.
pub proof fn law_table_count_is_fuel_enough(
    tables: Map<Seq<char>, TableView>,
    table: Seq<char>,
    name: Seq<char>,
    fuel: nat,
)
    requires
        tables.dom().finite(),
        fuel >= tables.dom().len(),
    ensures
        spec_chain_field(tables, table, name, fuel) == spec_chain_field(tables, table, name, tables.dom().len()),
        spec_chain_relationship(tables, table, name, fuel) == spec_chain_relationship(
            tables,
            table,
            name,
            tables.dom().len(),
        ),
{
    let n = tables.dom().len();
    let has_field = |x: Seq<char>| tables[x].2.contains_key(name);
    let has_rel = |x: Seq<char>| tables[x].3.contains_key(name);
    // fields
    if spec_chain_field(tables, table, name, fuel).is_some() {
        lemma_field_found(tables, table, name, fuel);
        let w = spec_walk(tables, table, fuel);
        let i = choose|i: int| {
            &&& 0 <= i < w.len()
            &&& tables[#[trigger] w[i]].2.contains_key(name)
            &&& forall|j: int| 0 <= j < i ==> !tables[#[trigger] w[j]].2.contains_key(name)
            &&& forall|k: nat| k > i ==> #[trigger] spec_chain_field(tables, table, name, k)
                == spec_chain_field(tables, table, name, fuel)
        };
        assert forall|j: int| 0 <= j < i implies !has_field(#[trigger] w[j]) by {}
        lemma_first_hit_is_early(tables, table, fuel, i, has_field);
        assert(spec_chain_field(tables, table, name, n) == spec_chain_field(tables, table, name, fuel));
    } else if spec_chain_field(tables, table, name, n).is_some() {
        lemma_field_found(tables, table, name, n);
        let w = spec_walk(tables, table, n);
        let i = choose|i: int| {
            &&& 0 <= i < w.len()
            &&& tables[#[trigger] w[i]].2.contains_key(name)
            &&& forall|j: int| 0 <= j < i ==> !tables[#[trigger] w[j]].2.contains_key(name)
            &&& forall|k: nat| k > i ==> #[trigger] spec_chain_field(tables, table, name, k)
                == spec_chain_field(tables, table, name, n)
        };
        lemma_walk_len(tables, table, n);
        assert(spec_chain_field(tables, table, name, fuel) == spec_chain_field(tables, table, name, n));
    }
    // relationships
    if spec_chain_relationship(tables, table, name, fuel).is_some() {
        lemma_relationship_found(tables, table, name, fuel);
        let w = spec_walk(tables, table, fuel);
        let i = choose|i: int| {
            &&& 0 <= i < w.len()
            &&& tables[#[trigger] w[i]].3.contains_key(name)
            &&& forall|j: int| 0 <= j < i ==> !tables[#[trigger] w[j]].3.contains_key(name)
            &&& forall|k: nat| k > i ==> #[trigger] spec_chain_relationship(tables, table, name, k)
                == spec_chain_relationship(tables, table, name, fuel)
        };
        assert forall|j: int| 0 <= j < i implies !has_rel(#[trigger] w[j]) by {}
        lemma_first_hit_is_early(tables, table, fuel, i, has_rel);
        assert(spec_chain_relationship(tables, table, name, n) == spec_chain_relationship(tables, table, name, fuel));
    } else if spec_chain_relationship(tables, table, name, n).is_some() {
        lemma_relationship_found(tables, table, name, n);
        let w = spec_walk(tables, table, n);
        let i = choose|i: int| {
            &&& 0 <= i < w.len()
            &&& tables[#[trigger] w[i]].3.contains_key(name)
            &&& forall|j: int| 0 <= j < i ==> !tables[#[trigger] w[j]].3.contains_key(name)
            &&& forall|k: nat| k > i ==> #[trigger] spec_chain_relationship(tables, table, name, k)
                == spec_chain_relationship(tables, table, name, n)
        };
        lemma_walk_len(tables, table, n);
        assert(spec_chain_relationship(tables, table, name, fuel) == spec_chain_relationship(tables, table, name, n));
    }
}

/// Runtime registry for table and relationship definitions: a merged schema
/// (base and overlays) with lookups by table name.
#[derive(Debug)]
pub struct SchemaRegistry {
    schema: SchemaDefinition,
}

impl SchemaRegistry {
    /// The tables of the registry.
    pub closed spec fn spec_tables(&self) -> Map<Seq<char>, TableView> {
        self.schema.tables.deep()
    }

    /// The release name of the registry.
    pub closed spec fn spec_release(&self) -> Seq<char> {
        self.schema.release@
    }

    /// How many tables an inheritance walk may visit: the number of tables.
    pub open spec fn spec_fuel(&self) -> nat {
        self.spec_tables().dom().len()
    }

    /// A registry holds finitely many tables.
    pub proof fn lemma_tables_finite(&self)
        ensures
            self.spec_tables().dom().finite(),
    {
        self.lemma_table_names();
        self.schema.tables.lemma_finite();
    }

    proof fn lemma_table_names(&self)
        ensures
            self.spec_tables().dom() == self.schema.tables@.dom(),
    {
        assert(self.spec_tables().dom() =~= self.schema.tables@.dom());
    }

    /// A registry holding a given schema.
    pub fn new(schema: SchemaDefinition) -> (r: Self)
        ensures
            r.spec_tables() == schema.tables.deep(),
            r.spec_release() == schema.release@,
    {
        SchemaRegistry { schema }
    }

    /// A registry holding the bundled schema of a release.
    pub fn from_release(release: &str) -> (r: Result<Self, Error>)
        ensures
            r.is_ok() <==> spec_known_release(release@),
            match r {
                Ok(reg) => reg.spec_release() == release@ && reg.spec_tables() == spec_bundled_tables(),
                Err(e) => e matches Error::Schema(_),
            },
    {
        let schema = load_bundled_definition(release)?;
        Ok(SchemaRegistry { schema })
    }

    /// A registry holding the bundled schema of a release with an overlay applied.
    pub fn from_release_with_overlay(release: &str, overlay: &SchemaOverlay) -> (r: Result<Self, Error>)
        ensures
            r.is_ok() <==> spec_known_release(release@),
            match r {
                Ok(reg) => reg.spec_release() == release@ && reg.spec_tables() == spec_merge(
                    spec_bundled_tables(),
                    overlay.tables.deep(),
                ),
                Err(e) => e matches Error::Schema(_),
            },
    {
        let mut schema = load_bundled_definition(release)?;
        let ghost base = schema.tables.deep();
        merge_overlay(&mut schema, overlay);
        Ok(SchemaRegistry { schema })
    }

    /// A registry holding the bundled schema of a release with an overlay,
    /// given as JSON, applied. An unknown release is reported before the overlay
    /// is read.
    pub fn from_release_with_overlay_str(release: &str, overlay_json: &str) -> (r: Result<Self, Error>)
        ensures
            r.is_ok() <==> spec_known_release(release@) && (spec_parse_json(overlay_json@) matches Ok(v)
                && spec_overlay(v).is_some()),
            match r {
                Ok(reg) => reg.spec_release() == release@ && (spec_parse_json(overlay_json@) matches Ok(v)
                    && reg.spec_tables() == spec_merge(spec_bundled_tables(), spec_overlay(v).unwrap().1)),
                Err(e) => e matches Error::Schema(_),
            },
    {
        let mut schema = load_bundled_definition(release)?;
        let overlay = load_overlay_from_str(overlay_json)?;
        let ghost base = schema.tables.deep();
        merge_overlay(&mut schema, &overlay);
        Ok(SchemaRegistry { schema })
    }

    /// Apply an additional overlay.
    pub fn apply_overlay(&mut self, overlay: &SchemaOverlay)
        ensures
            final(self).spec_tables() == spec_merge(old(self).spec_tables(), overlay.tables.deep()),
            final(self).spec_release() == old(self).spec_release(),
    {
        merge_overlay(&mut self.schema, overlay);
    }

    /// The release name.
    pub fn release(&self) -> (r: &str)
        ensures
            r@ == self.spec_release(),
    {
        self.schema.release.as_str()
    }

    /// A table definition by name.
    pub fn table(&self, name: &str) -> (r: Option<&TableDef>)
        ensures
            match r {
                Some(t) => self.spec_tables().contains_key(name@) && self.spec_tables()[name@] == t@,
                None => !self.spec_tables().contains_key(name@),
            },
    {
        self.schema.tables.get(name)
    }

    /// A field of a table, inherited fields included: the walk goes up the
    /// `extends` chain and visits at most as many tables as the schema holds,
    /// which no walk needs to exceed (`law_table_count_is_fuel_enough`). Where
    /// the chain runs into a cycle of tables none of which holds the field, the
    /// answer is `None`.
    pub fn field(&self, table: &str, field: &str) -> (r: Option<&FieldDef>)
        ensures
            match r {
                Some(f) => spec_chain_field(self.spec_tables(), table@, field@, self.spec_fuel()) == Some(f@),
                None => spec_chain_field(self.spec_tables(), table@, field@, self.spec_fuel()).is_none(),
            },
    {
        let n = self.schema.tables.len();
        proof {
            self.lemma_table_names();
        }
        let mut current = owned(table);
        let mut steps: usize = 0;
        while steps < n
            invariant
                0 <= steps <= n == self.spec_fuel(),
                spec_chain_field(self.spec_tables(), table@, field@, self.spec_fuel())
                    == spec_chain_field(self.spec_tables(), current@, field@, (n - steps) as nat),
            decreases n - steps,
        {
            match self.schema.tables.get(current.as_str()) {
                Some(tbl) => {
                    match tbl.fields.get(field) {
                        Some(f) => {
                            return Some(f);
                        },
                        None => {},
                    }
                    match &tbl.extends {
                        Some(p) => {
                            current = p.clone();
                        },
                        None => {
                            return None;
                        },
                    }
                },
                None => {
                    return None;
                },
            }
            steps = steps + 1;
        }
        None
    }

    /// A relationship of a table, inherited relationships included, found the
    /// same way as fields.
    pub fn relationship(&self, table: &str, rel_name: &str) -> (r: Option<&RelationshipDef>)
        ensures
            match r {
                Some(d) => spec_chain_relationship(self.spec_tables(), table@, rel_name@, self.spec_fuel()) == Some(d@),
                None => spec_chain_relationship(self.spec_tables(), table@, rel_name@, self.spec_fuel()).is_none(),
            },
    {
        let n = self.schema.tables.len();
        proof {
            self.lemma_table_names();
        }
        let mut current = owned(table);
        let mut steps: usize = 0;
        while steps < n
            invariant
                0 <= steps <= n == self.spec_fuel(),
                spec_chain_relationship(self.spec_tables(), table@, rel_name@, self.spec_fuel())
                    == spec_chain_relationship(self.spec_tables(), current@, rel_name@, (n - steps) as nat),
            decreases n - steps,
        {
            match self.schema.tables.get(current.as_str()) {
                Some(tbl) => {
                    match tbl.relationships.get(rel_name) {
                        Some(d) => {
                            return Some(d);
                        },
                        None => {},
                    }
                    match &tbl.extends {
                        Some(p) => {
                            current = p.clone();
                        },
                        None => {
                            return None;
                        },
                    }
                },
                None => {
                    return None;
                },
            }
            steps = steps + 1;
        }
        None
    }

    /// All relationships of a table, inherited ones included: each name once,
    /// with the definition that the nearest table of the `extends` chain gives it.
    pub fn relationships(&self, table: &str) -> (r: Vec<(&str, &RelationshipDef)>)
        ensures
            forall|i: int, j: int| 0 <= i < j < r@.len() ==> #[trigger] r@[i].0@ != #[trigger] r@[j].0@,
            forall|i: int| 0 <= i < r@.len() ==> spec_chain_relationship(
                self.spec_tables(),
                table@,
                (#[trigger] r@[i]).0@,
                self.spec_fuel(),
            ) == Some(r@[i].1@),
            forall|k: Seq<char>| #[trigger] spec_chain_relationship(self.spec_tables(), table@, k, self.spec_fuel()).is_some()
                ==> exists|i: int| 0 <= i < r@.len() && r@[i].0@ == k,
    {
        let n = self.schema.tables.len();
        proof {
            self.lemma_table_names();
        }
        let mut result: Vec<(&str, &RelationshipDef)> = Vec::new();
        let mut current = owned(table);
        let mut steps: usize = 0;
        while steps < n
            invariant
                0 <= steps <= n == self.spec_fuel(),
                forall|i: int, j: int| 0 <= i < j < result@.len() ==> #[trigger] result@[i].0@ != #[trigger] result@[j].0@,
                forall|i: int| 0 <= i < result@.len() ==> spec_chain_relationship(
                    self.spec_tables(),
                    table@,
                    (#[trigger] result@[i]).0@,
                    self.spec_fuel(),
                ) == Some(result@[i].1@),
                forall|k: Seq<char>| (forall|i: int| 0 <= i < result@.len() ==> result@[i].0@ != k)
                    ==> #[trigger] spec_chain_relationship(self.spec_tables(), table@, k, self.spec_fuel())
                    == spec_chain_relationship(self.spec_tables(), current@, k, (n - steps) as nat),
            decreases n - steps,
        {
            match self.schema.tables.get(current.as_str()) {
                Some(tbl) => {
                    let m = tbl.relationships.len();
                    let mut j: usize = 0;
                    while j < m
                        invariant
                            0 <= steps < n == self.spec_fuel(),
                            0 <= j <= m == tbl.relationships.key_seq().len(),
                            self.spec_tables().contains_key(current@),
                            self.spec_tables()[current@] == tbl@,
                            forall|k: Seq<char>| #[trigger] tbl.relationships@.contains_key(k) <==> tbl.relationships.key_seq().contains(k),
                            forall|i: int, i2: int| 0 <= i < i2 < result@.len() ==> #[trigger] result@[i].0@ != #[trigger] result@[i2].0@,
                            forall|i: int| 0 <= i < result@.len() ==> spec_chain_relationship(
                                self.spec_tables(),
                                table@,
                                (#[trigger] result@[i]).0@,
                                self.spec_fuel(),
                            ) == Some(result@[i].1@),
                            forall|k: Seq<char>| (forall|i: int| 0 <= i < result@.len() ==> result@[i].0@ != k)
                                ==> #[trigger] spec_chain_relationship(self.spec_tables(), table@, k, self.spec_fuel())
                                == spec_chain_relationship(self.spec_tables(), current@, k, (n - steps) as nat),
                            forall|j2: int| 0 <= j2 < j ==> exists|i: int|
                                0 <= i < result@.len() && result@[i].0@ == #[trigger] tbl.relationships.key_seq()[j2],
                        decreases m - j,
                    {
                        let (k, v) = tbl.relationships.entry_at(j);
                        if !has_name(&result, k.as_str()) {
                            proof {
                                assert(tbl.relationships@.contains_key(k@));
                                assert(tbl.relationships.deep().contains_key(k@));
                                assert(tbl.relationships.deep()[k@] == v@);
                                assert(spec_chain_relationship(self.spec_tables(), current@, k@, (n - steps) as nat)
                                    == Some(v@));
                            }
                            let ghost prev = result@;
                            result.push((k.as_str(), v));
                            proof {
                                assert forall|i: int, i2: int| 0 <= i < i2 < result@.len()
                                    implies #[trigger] result@[i].0@ != #[trigger] result@[i2].0@ by {
                                    if i2 < prev.len() {
                                        assert(prev[i].0@ != prev[i2].0@);
                                    }
                                }
                                assert forall|k2: Seq<char>| (forall|i: int| 0 <= i < result@.len() ==> result@[i].0@ != k2)
                                    implies #[trigger] spec_chain_relationship(self.spec_tables(), table@, k2, self.spec_fuel())
                                    == spec_chain_relationship(self.spec_tables(), current@, k2, (n - steps) as nat) by {
                                    assert forall|i: int| 0 <= i < prev.len() implies prev[i].0@ != k2 by {
                                        assert(result@[i] == prev[i]);
                                    }
                                }
                                assert forall|j2: int| 0 <= j2 < j + 1 implies exists|i: int|
                                    0 <= i < result@.len() && result@[i].0@ == #[trigger] tbl.relationships.key_seq()[j2] by {
                                    if j2 < j {
                                        let i = choose|i: int| 0 <= i < prev.len() && prev[i].0@ == tbl.relationships.key_seq()[j2];
                                        assert(result@[i].0@ == tbl.relationships.key_seq()[j2]);
                                    } else {
                                        assert(result@[prev.len() as int].0@ == tbl.relationships.key_seq()[j2]);
                                    }
                                }
                            }
                        }
                        j = j + 1;
                    }
                    proof {
                        assert forall|k: Seq<char>| (forall|i: int| 0 <= i < result@.len() ==> result@[i].0@ != k)
                            implies !tbl.relationships@.contains_key(k) by {
                            if tbl.relationships@.contains_key(k) {
                                let j2 = choose|j2: int| 0 <= j2 < tbl.relationships.key_seq().len() && tbl.relationships.key_seq()[j2] == k;
                                assert(exists|i: int| 0 <= i < result@.len() && result@[i].0@ == tbl.relationships.key_seq()[j2]);
                            }
                        }
                    }
                    match &tbl.extends {
                        Some(p) => {
                            current = p.clone();
                        },
                        None => {
                            return result;
                        },
                    }
                },
                None => {
                    return result;
                },
            }
            steps = steps + 1;
        }
        result
    }

    /// The names of all tables.
    pub fn table_names(&self) -> (r: Vec<String>)
        ensures
            forall|k: Seq<char>| #[trigger] self.spec_tables().contains_key(k) <==> exists|i: int|
                0 <= i < r@.len() && r@[i]@ == k,
    {
        let _ = self.schema.tables.len();
        let r = self.schema.tables.keys();
        proof {
            assert forall|k: Seq<char>| #[trigger] self.spec_tables().contains_key(k) <==> exists|i: int|
                0 <= i < r@.len() && r@[i]@ == k by {
                if self.spec_tables().contains_key(k) {
                    assert(self.schema.tables.key_seq().contains(k));
                    let i = choose|i: int| 0 <= i < self.schema.tables.key_seq().len() && self.schema.tables.key_seq()[i] == k;
                    assert(r@[i]@ == k);
                }
                if exists|i: int| 0 <= i < r@.len() && r@[i]@ == k {
                    let i = choose|i: int| 0 <= i < r@.len() && r@[i]@ == k;
                    assert(self.schema.tables.key_seq()[i] == k);
                    assert(self.schema.tables.key_seq().contains(k));
                }
            }
        }
        r
    }

    /// Whether a table exists.
    pub fn has_table(&self, name: &str) -> (r: bool)
        ensures
            r == self.spec_tables().contains_key(name@),
    {
        self.schema.tables.contains_key(name)
    }

    /// Whether a table has a field, inherited fields included.
    pub fn has_field(&self, table: &str, field: &str) -> (r: bool)
        ensures
            r == spec_chain_field(self.spec_tables(), table@, field@, self.spec_fuel()).is_some(),
    {
        self.field(table, field).is_some()
    }

    /// The parent table that a table extends, if any.
    pub fn parent_table(&self, table: &str) -> (r: Option<&str>)
        ensures
            opt_str_view(r) == (if self.spec_tables().contains_key(table@) {
                self.spec_tables()[table@].1
            } else {
                None
            }),
    {
        match self.schema.tables.get(table) {
            Some(t) => match &t.extends {
                Some(e) => Some(e.as_str()),
                None => None,
            },
            None => None,
        }
    }

    /// The full schema definition.
    pub fn schema(&self) -> (r: &SchemaDefinition)
        ensures
            r.tables.deep() == self.spec_tables(),
            r.release@ == self.spec_release(),
    {
        &self.schema
    }
}

}
