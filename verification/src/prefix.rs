//! Registry mapping record-number prefixes (`INC`, `CHG`, ...) to table names.

use vstd::prelude::*;
use crate::strmap::StrMap;
use crate::schema::relationships::spec_parent_reference_field;
use crate::text::{
    all_ascii, is_ascii_alpha, owned, spec_ascii_upper, spec_to_uppercase, spec_trim, str_chars,
    string_from_range, to_uppercase, trim,
};

verus! {

/// The run of ASCII letters that starts a string.
pub open spec fn spec_alpha_prefix(s: Seq<char>) -> Seq<char>
    decreases s.len(),
{
    if s.len() > 0 && is_ascii_alpha(s[0]) {
        seq![s[0]] + spec_alpha_prefix(s.drop_first())
    } else {
        Seq::empty()
    }
}

/// The prefix of a record number: the leading ASCII letters of the trimmed
/// number, upper-cased; `None` where there are none.
pub open spec fn spec_extract_prefix(number: Seq<char>) -> Option<Seq<char>> {
    let p = spec_alpha_prefix(spec_trim(number));
    if p.len() == 0 {
        None
    } else {
        Some(spec_ascii_upper(p))
    }
}

/// What a registry answers for a prefix, given its mappings.
pub open spec fn spec_lookup(m: Map<Seq<char>, Seq<char>>, prefix: Seq<char>) -> Option<Seq<char>> {
    if m.contains_key(spec_to_uppercase(prefix)) {
        Some(m[spec_to_uppercase(prefix)])
    } else {
        None
    }
}

/// What a registry answers for a record number, given its mappings: what it
/// answers for the number's prefix, and nothing where the number has none.
pub open spec fn spec_lookup_number(m: Map<Seq<char>, Seq<char>>, number: Seq<char>) -> Option<Seq<char>> {
    match spec_extract_prefix(number) {
        Some(p) => spec_lookup(m, p),
        None => None,
    }
}

proof fn lemma_alpha_prefix(s: Seq<char>, k: int)
    requires
        0 <= k <= s.len(),
        forall|j: int| 0 <= j < k ==> is_ascii_alpha(#[trigger] s[j]),
        k == s.len() || !is_ascii_alpha(s[k]),
    ensures
        spec_alpha_prefix(s) == s.take(k),
    decreases k,
{
    if k > 0 {
        assert forall|j: int| 0 <= j < k - 1 implies is_ascii_alpha(#[trigger] s.drop_first()[j]) by {
            assert(s.drop_first()[j] == s[j + 1]);
        }
        if k < s.len() {
            assert(s.drop_first()[k - 1] == s[k]);
        }
        lemma_alpha_prefix(s.drop_first(), k - 1);
        assert(seq![s[0]] + s.drop_first().take(k - 1) =~= s.take(k));
    } else {
        assert(s.take(0) =~= Seq::<char>::empty());
    }
}

proof fn lemma_ascii_upper_is_ascii(s: Seq<char>)
    requires
        forall|j: int| 0 <= j < s.len() ==> is_ascii_alpha(#[trigger] s[j]),
    ensures
        all_ascii(s),
        all_ascii(spec_ascii_upper(s)),
        spec_ascii_upper(spec_ascii_upper(s)) == spec_ascii_upper(s),
{
    assert forall|j: int| 0 <= j < s.len() implies crate::text::is_ascii_char(#[trigger] s[j]) by {
        assert(is_ascii_alpha(s[j]));
    }
    assert(spec_ascii_upper(spec_ascii_upper(s)) =~= spec_ascii_upper(s));
}

/// Extract the upper-cased alphabetic prefix of a record number.
///
/// `"INC0012345"` gives `Some("INC")`, `"inc001"` gives `Some("INC")`,
/// `"0012345"` and `""` give `None`.
fn extract_prefix(number: &str) -> (r: Option<String>)
    ensures
        match r {
            Some(p) => spec_extract_prefix(number@) == Some(p@),
            None => spec_extract_prefix(number@).is_none(),
        },
        r matches Some(p) ==> all_ascii(p@) && spec_ascii_upper(p@) == p@,
{
    let t = trim(number);
    let v = str_chars(t.as_str());
    let n = v.len();
    let mut k: usize = 0;
    while k < n && (('a' <= v[k] && v[k] <= 'z') || ('A' <= v[k] && v[k] <= 'Z'))
        invariant
            0 <= k <= n == v@.len(),
            forall|j: int| 0 <= j < k ==> is_ascii_alpha(#[trigger] v@[j]),
        decreases n - k,
    {
        k = k + 1;
    }
    proof {
        lemma_alpha_prefix(v@, k as int);
    }
    if k == 0 {
        return None;
    }
    let p = string_from_range(&v, 0, k);
    proof {
        assert(p@ =~= v@.take(k as int));
        lemma_ascii_upper_is_ascii(p@);
    }
    let up = to_uppercase(p.as_str());
    Some(up)
}

/// A prefix registered in ASCII is stored in its ASCII upper case, and that
/// key looks itself up: it is ASCII too, and upper-casing it again changes
/// nothing.
pub proof fn law_ascii_key_is_upper(s: Seq<char>)
    requires
        all_ascii(s),
    ensures
        all_ascii(spec_ascii_upper(s)),
        spec_ascii_upper(spec_ascii_upper(s)) == spec_ascii_upper(s),
{
    let u = spec_ascii_upper(s);
    assert forall|j: int| 0 <= j < u.len() implies crate::text::is_ascii_char(#[trigger] u[j]) && !crate::text::is_ascii_lower(u[j]) by {
        assert(crate::text::is_ascii_char(s[j]));
    }
    assert(spec_ascii_upper(u) =~= u);
}

/// Registry mapping record number prefixes to table names.
///
/// Record numbers follow the pattern `PREFIX0000123`, where the prefix names the
/// table. Prefixes are stored upper-cased and matched case-insensitively.
#[derive(Debug)]
pub struct PrefixRegistry {
    mappings: StrMap<String>,
}

impl PrefixRegistry {
    /// The mappings, upper-cased prefix to table name.
    pub closed spec fn spec_mappings(&self) -> Map<Seq<char>, Seq<char>> {
        self.mappings@.map_values(|t: String| t@)
    }

    /// A registry with no mappings.
    pub fn empty() -> (r: Self)
        ensures
            r.spec_mappings() == Map::<Seq<char>, Seq<char>>::empty(),
    {
        let r = PrefixRegistry { mappings: StrMap::new() };
        assert(r.spec_mappings() =~= Map::<Seq<char>, Seq<char>>::empty());
        r
    }

    /// Register a prefix, upper-cased, for a table; a present prefix is overwritten.
    pub fn register(&mut self, prefix: &str, table: &str)
        ensures
            final(self).spec_mappings() == old(self).spec_mappings().insert(
                spec_to_uppercase(prefix@),
                table@,
            ),
            all_ascii(prefix@) ==> spec_to_uppercase(prefix@) == spec_ascii_upper(prefix@),
    {
        let up = to_uppercase(prefix);
        let ghost k = up@;
        self.mappings.insert(up, owned(table));
        assert(self.spec_mappings() =~= old(self).spec_mappings().insert(k, table@));
    }

    /// Insert an already upper-case prefix.
    fn register_upper(&mut self, prefix: &str, table: &str)
        ensures
            final(self).spec_mappings() == old(self).spec_mappings().insert(prefix@, table@),
    {
        self.mappings.insert(owned(prefix), owned(table));
        assert(self.spec_mappings() =~= old(self).spec_mappings().insert(prefix@, table@));
    }

    /// The table registered for a prefix, matched case-insensitively.
    pub fn table_for_prefix(&self, prefix: &str) -> (r: Option<&str>)
        ensures
            match r {
                Some(t) => spec_lookup(self.spec_mappings(), prefix@) == Some(t@),
                None => spec_lookup(self.spec_mappings(), prefix@).is_none(),
            },
            all_ascii(prefix@) ==> spec_to_uppercase(prefix@) == spec_ascii_upper(prefix@),
    {
        let up = to_uppercase(prefix);
        match self.mappings.get(up.as_str()) {
            Some(t) => Some(t.as_str()),
            None => None,
        }
    }

    /// The table for a record number, found through its prefix: the table
    /// that `table_for_prefix` gives for `extract_prefix(number)`, and `None`
    /// where the number has no prefix. The prefix is upper-cased already, so
    /// it is looked up as it stands.
    pub fn table_for_number(&self, number: &str) -> (r: Option<&str>)
        ensures
            match r {
                Some(t) => spec_lookup_number(self.spec_mappings(), number@) == Some(t@),
                None => spec_lookup_number(self.spec_mappings(), number@).is_none(),
            },
            spec_extract_prefix(number@) matches Some(p) ==> spec_to_uppercase(p) == p,
    {
        match extract_prefix(number) {
            Some(p) => self.table_for_prefix(p.as_str()),
            None => None,
        }
    }

    /// The upper-cased alphabetic prefix of a record number, if it has one.
    pub fn extract_prefix(number: &str) -> (r: Option<String>)
        ensures
            match r {
                Some(p) => spec_extract_prefix(number@) == Some(p@),
                None => spec_extract_prefix(number@).is_none(),
            },
    {
        extract_prefix(number)
    }

    /// All registered mappings.
    pub fn mappings(&self) -> (r: &StrMap<String>)
        ensures
            r@.map_values(|t: String| t@) == self.spec_mappings(),
    {
        &self.mappings
    }

    /// Number of registered prefixes.
    pub fn len(&self) -> (r: usize)
        ensures
            r == self.spec_mappings().dom().len(),
    {
        let r = self.mappings.len();
        assert(self.spec_mappings().dom() =~= self.mappings@.dom());
        r
    }

    /// Whether no prefix is registered.
    pub fn is_empty(&self) -> (r: bool)
        ensures
            r == (self.spec_mappings() == Map::<Seq<char>, Seq<char>>::empty()),
    {
        let r = self.mappings.is_empty();
        proof {
            if !r {
                let m = self.mappings@;
                let k = choose|k: Seq<char>| m.contains_key(k);
                if m.dom() =~= Set::<Seq<char>>::empty() {
                    assert(m =~= Map::<Seq<char>, String>::empty());
                } else {
                    let k2 = m.dom().choose();
                    assert(self.spec_mappings().contains_key(k2));
                }
            } else {
                assert(self.spec_mappings() =~= Map::<Seq<char>, Seq<char>>::empty());
            }
        }
        r
    }
}

/// The standard prefix mappings.
pub open spec fn spec_default_mappings() -> Map<Seq<char>, Seq<char>> {
    Map::<Seq<char>, Seq<char>>::empty()
        .insert("INC"@, "incident"@)
        .insert("CHG"@, "change_request"@)
        .insert("CTASK"@, "change_task"@)
        .insert("PRB"@, "problem"@)
        .insert("RITM"@, "sc_req_item"@)
        .insert("REQ"@, "sc_request"@)
        .insert("SCTASK"@, "sc_task"@)
        .insert("TASK"@, "sc_task"@)
        .insert("KB"@, "kb_knowledge"@)
        .insert("STRY"@, "rm_story"@)
        .insert("STSK"@, "rm_scrum_task"@)
        .insert("PRJ"@, "pm_project"@)
        .insert("DMND"@, "dmn_demand"@)
}

/// The standard prefixes name tables of their own: two standard prefixes
/// share a table only where `SCTASK` and its short form `TASK` both name the
/// catalog task table.
pub proof fn law_default_tables_distinct(a: Seq<char>, b: Seq<char>)
    requires
        spec_default_mappings().contains_key(a),
        spec_default_mappings().contains_key(b),
        a != b,
        spec_default_mappings()[a] == spec_default_mappings()[b],
    ensures
        (a == "SCTASK"@ && b == "TASK"@) || (a == "TASK"@ && b == "SCTASK"@),
{
    reveal_strlit("INC");
    reveal_strlit("CHG");
    reveal_strlit("CTASK");
    reveal_strlit("PRB");
    reveal_strlit("RITM");
    reveal_strlit("REQ");
    reveal_strlit("SCTASK");
    reveal_strlit("TASK");
    reveal_strlit("KB");
    reveal_strlit("STRY");
    reveal_strlit("STSK");
    reveal_strlit("PRJ");
    reveal_strlit("DMND");
    reveal_strlit("incident");
    reveal_strlit("change_request");
    reveal_strlit("change_task");
    reveal_strlit("problem");
    reveal_strlit("sc_req_item");
    reveal_strlit("sc_request");
    reveal_strlit("sc_task");
    reveal_strlit("kb_knowledge");
    reveal_strlit("rm_story");
    reveal_strlit("rm_scrum_task");
    reveal_strlit("pm_project");
    reveal_strlit("dmn_demand");
    let m = spec_default_mappings();
    assert(m[a].len() == m[b].len());
    assert(m[a][0] == m[b][0]);
}

/// The standard prefixes cover both ends of the parent and child links that
/// `parent_reference_field` knows: a child table whose parent table has a
/// standard prefix has one of its own (change tasks beside changes, catalog
/// tasks beside requested items, scrum tasks beside stories).
pub proof fn law_default_children_have_prefixes(child: Seq<char>, field: Seq<char>, parent: Seq<char>, pp: Seq<char>)
    requires
        spec_parent_reference_field(child) == Some((field, parent)),
        spec_default_mappings().contains_key(pp),
        spec_default_mappings()[pp] == parent,
    ensures
        exists|pc: Seq<char>| spec_default_mappings().contains_key(pc) && spec_default_mappings()[pc] == child,
{
    reveal_strlit("INC");
    reveal_strlit("CHG");
    reveal_strlit("CTASK");
    reveal_strlit("PRB");
    reveal_strlit("RITM");
    reveal_strlit("REQ");
    reveal_strlit("SCTASK");
    reveal_strlit("TASK");
    reveal_strlit("KB");
    reveal_strlit("STRY");
    reveal_strlit("STSK");
    reveal_strlit("PRJ");
    reveal_strlit("DMND");
    reveal_strlit("incident");
    reveal_strlit("change_request");
    reveal_strlit("change_task");
    reveal_strlit("problem");
    reveal_strlit("sc_req_item");
    reveal_strlit("sc_request");
    reveal_strlit("sc_task");
    reveal_strlit("kb_knowledge");
    reveal_strlit("rm_story");
    reveal_strlit("rm_scrum_task");
    reveal_strlit("pm_project");
    reveal_strlit("dmn_demand");
    reveal_strlit("task");
    reveal_strlit("sysapproval_approver");
    let m = spec_default_mappings();
    assert(m[pp].len() == parent.len());
    if child == "change_task"@ {
        assert("CTASK"@ != "PRB"@) by { assert("CTASK"@.len() != "PRB"@.len() || "CTASK"@[0] != "PRB"@[0]); }
        assert("CTASK"@ != "RITM"@) by { assert("CTASK"@.len() != "RITM"@.len() || "CTASK"@[0] != "RITM"@[0]); }
        assert("CTASK"@ != "REQ"@) by { assert("CTASK"@.len() != "REQ"@.len() || "CTASK"@[0] != "REQ"@[0]); }
        assert("CTASK"@ != "SCTASK"@) by { assert("CTASK"@.len() != "SCTASK"@.len() || "CTASK"@[0] != "SCTASK"@[0]); }
        assert("CTASK"@ != "TASK"@) by { assert("CTASK"@.len() != "TASK"@.len() || "CTASK"@[0] != "TASK"@[0]); }
        assert("CTASK"@ != "KB"@) by { assert("CTASK"@.len() != "KB"@.len() || "CTASK"@[0] != "KB"@[0]); }
        assert("CTASK"@ != "STRY"@) by { assert("CTASK"@.len() != "STRY"@.len() || "CTASK"@[0] != "STRY"@[0]); }
        assert("CTASK"@ != "STSK"@) by { assert("CTASK"@.len() != "STSK"@.len() || "CTASK"@[0] != "STSK"@[0]); }
        assert("CTASK"@ != "PRJ"@) by { assert("CTASK"@.len() != "PRJ"@.len() || "CTASK"@[0] != "PRJ"@[0]); }
        assert("CTASK"@ != "DMND"@) by { assert("CTASK"@.len() != "DMND"@.len() || "CTASK"@[0] != "DMND"@[0]); }
        assert(m.contains_key("CTASK"@) && m["CTASK"@] == child);
    } else if child == "sc_task"@ {
        assert("SCTASK"@ != "TASK"@) by { assert("SCTASK"@.len() != "TASK"@.len() || "SCTASK"@[0] != "TASK"@[0]); }
        assert("SCTASK"@ != "KB"@) by { assert("SCTASK"@.len() != "KB"@.len() || "SCTASK"@[0] != "KB"@[0]); }
        assert("SCTASK"@ != "STRY"@) by { assert("SCTASK"@.len() != "STRY"@.len() || "SCTASK"@[0] != "STRY"@[0]); }
        assert("SCTASK"@ != "STSK"@) by { assert("SCTASK"@.len() != "STSK"@.len() || "SCTASK"@[0] != "STSK"@[0]); }
        assert("SCTASK"@ != "PRJ"@) by { assert("SCTASK"@.len() != "PRJ"@.len() || "SCTASK"@[0] != "PRJ"@[0]); }
        assert("SCTASK"@ != "DMND"@) by { assert("SCTASK"@.len() != "DMND"@.len() || "SCTASK"@[0] != "DMND"@[0]); }
        assert(m.contains_key("SCTASK"@) && m["SCTASK"@] == child);
    } else if child == "rm_scrum_task"@ {
        assert("STSK"@ != "PRJ"@) by { assert("STSK"@.len() != "PRJ"@.len() || "STSK"@[0] != "PRJ"@[0]); }
        assert("STSK"@ != "DMND"@) by { assert("STSK"@.len() != "DMND"@.len() || "STSK"@[0] != "DMND"@[0]); }
        assert(m.contains_key("STSK"@) && m["STSK"@] == child);
    } else {
        assert(child == "sysapproval_approver"@);
        assert(parent == "task"@);
        assert(m[pp][0] == parent[0]);
    }
}

impl Default for PrefixRegistry {
    /// A registry with the standard mappings.
    fn default() -> (r: Self)
        ensures
            r.spec_mappings() == spec_default_mappings(),
    {
        let mut registry = Self::empty();
        registry.register_upper("INC", "incident");
        registry.register_upper("CHG", "change_request");
        registry.register_upper("CTASK", "change_task");
        registry.register_upper("PRB", "problem");
        registry.register_upper("RITM", "sc_req_item");
        registry.register_upper("REQ", "sc_request");
        registry.register_upper("SCTASK", "sc_task");
        registry.register_upper("TASK", "sc_task");
        registry.register_upper("KB", "kb_knowledge");
        registry.register_upper("STRY", "rm_story");
        registry.register_upper("STSK", "rm_scrum_task");
        registry.register_upper("PRJ", "pm_project");
        registry.register_upper("DMND", "dmn_demand");
        registry
    }
}

/// After `register(prefix, table)`, looking the same prefix up gives `table`,
/// and every other upper-cased prefix answers as before.
pub proof fn law_register_then_lookup(
    before: Map<Seq<char>, Seq<char>>,
    prefix: Seq<char>,
    table: Seq<char>,
    other: Seq<char>,
)
    ensures
        spec_lookup(before.insert(spec_to_uppercase(prefix), table), prefix) == Some(table),
        spec_to_uppercase(other) != spec_to_uppercase(prefix) ==> spec_lookup(
            before.insert(spec_to_uppercase(prefix), table),
            other,
        ) == spec_lookup(before, other),
{
}

}
