//! The rule engine: ordered lists of classifiers ("modes") that map
//! connection metadata to the name of an outbound backend.
//!
//! Evaluation is strictly first-match-wins over the rule order; an empty or
//! exhausted rule list is a normal no-match outcome, not a fault.

use vstd::prelude::*;

use crate::meta::ConnectionMeta;

verus! {

/// Compare two string slices character by character.
pub fn str_eq(a: &str, b: &str) -> (r: bool)
    ensures
        r == (a@ == b@),
{
    let n = a.unicode_len();
    if n != b.unicode_len() {
        return false;
    }
    let mut i: usize = 0;
    while i < n
        invariant
            i <= n,
            n == a@.len() == b@.len(),
            forall|j: int| 0 <= j < i ==> a@[j] == b@[j],
        decreases n - i,
    {
        if a.get_char(i) != b.get_char(i) {
            return false;
        }
        i = i + 1;
    }
    proof {
        assert(a@ =~= b@);
    }
    true
}

/// The name of the direct outbound, which the built-in rules resolve to.
pub open spec fn direct_name() -> Seq<char> {
    "DIRECT"@
}

/// The direct outbound's name as an owned string.
pub fn direct_name_string() -> (r: String)
    ensures
        r@ == direct_name(),
{
    String::from_str("DIRECT")
}

/// Classifier that always resolves to the direct outbound.
pub struct Direct {}

/// Classifier that resolves every connection to the same fixed outbound,
/// regardless of its metadata.
pub struct Global {}

/// What a rule resolves a connection to, if anything.
pub open spec fn rule_eval(r: RuleItem, cm: ConnectionMeta) -> Option<Seq<char>> {
    match r {
        RuleItem::Direct(_) => Some(direct_name()),
        RuleItem::Global(_) => Some(direct_name()),
    }
}

impl Direct {
    /// Always resolves, to the direct outbound name.
    pub fn run(&self, cm: &ConnectionMeta) -> (r: Option<String>)
        ensures
            r is Some && r.unwrap()@ == direct_name(),
    {
        Some(direct_name_string())
    }
}

impl Global {
    /// Always resolves, to the fixed catch-all outbound name.
    pub fn run(&self, cm: &ConnectionMeta) -> (r: Option<String>)
        ensures
            r is Some && r.unwrap()@ == direct_name(),
    {
        Some(direct_name_string())
    }
}

/// One rule of a mode; the closed set of classifier kinds.
pub enum RuleItem {
    Direct(Direct),
    Global(Global),
}

impl RuleItem {
    /// Evaluate this rule on the connection metadata.
    pub fn run(&self, cm: &ConnectionMeta) -> (r: Option<String>)
        ensures
            match rule_eval(*self, *cm) {
                Some(n) => r is Some && r.unwrap()@ == n,
                None => r is None,
            },
    {
        match self {
            RuleItem::Direct(d) => d.run(cm),
            RuleItem::Global(g) => g.run(cm),
        }
    }
}

/// The result of the first rule in order that resolves, or nothing.
pub open spec fn first_match(rules: Seq<RuleItem>, cm: ConnectionMeta) -> Option<Seq<char>>
    decreases rules.len(),
{
    if rules.len() == 0 {
        None
    } else {
        match rule_eval(rules[0], cm) {
            Some(n) => Some(n),
            None => first_match(rules.subrange(1, rules.len() as int), cm),
        }
    }
}

/// No rule of the mode matched; an expected outcome meaning the connection
/// is to be refused, not a fault.
#[derive(Clone, Copy, PartialEq, Eq, Structural, Debug)]
pub struct NoMatchError;

/// Evaluate a mode's rules in order and return the first match.
pub fn lookup(mode: &Vec<RuleItem>, cm: &ConnectionMeta) -> (r: Result<String, NoMatchError>)
    ensures
        match first_match(mode@, *cm) {
            Some(n) => r is Ok && r.unwrap()@ == n,
            None => r is Err,
        },
{
    let ghost whole = mode@;
    let mut i: usize = 0;
    proof {
        assert(whole.subrange(0, whole.len() as int) =~= whole);
    }
    while i < mode.len()
        invariant
            i <= mode@.len(),
            mode@ == whole,
            first_match(whole, *cm) == first_match(
                whole.subrange(i as int, whole.len() as int),
                *cm,
            ),
        decreases mode@.len() - i,
    {
        let ghost rest = whole.subrange(i as int, whole.len() as int);
        proof {
            assert(rest[0] == whole[i as int]);
            assert(rest.subrange(1, rest.len() as int) =~= whole.subrange(
                i + 1,
                whole.len() as int,
            ));
        }
        match mode[i].run(cm) {
            Some(name) => {
                return Ok(name);
            },
            None => {},
        }
        i = i + 1;
    }
    Err(NoMatchError)
}

/// A named mode: its rules in evaluation order.
pub struct ModeEntry {
    pub name: String,
    pub rules: Vec<RuleItem>,
}

/// The immutable name-to-mode table built once at startup.
pub struct ModeTable {
    entries: Vec<ModeEntry>,
}

impl ModeTable {
    /// The entries, in insertion order.
    pub closed spec fn entries_seq(self) -> Seq<ModeEntry> {
        self.entries@
    }

    /// Mode names are unique.
    pub open spec fn wf(self) -> bool {
        forall|i: int, j: int|
            0 <= i < j < self.entries_seq().len() ==> self.entries_seq()[i].name@
                != self.entries_seq()[j].name@
    }

    /// The rules of the first entry carrying `name`, if any.
    pub open spec fn find_mode(self, name: Seq<char>) -> Option<Seq<RuleItem>> {
        Self::find_in(self.entries_seq(), name)
    }

    pub open spec fn find_in(entries: Seq<ModeEntry>, name: Seq<char>) -> Option<Seq<RuleItem>>
        decreases entries.len(),
    {
        if entries.len() == 0 {
            None
        } else if entries[0].name@ == name {
            Some(entries[0].rules@)
        } else {
            Self::find_in(entries.subrange(1, entries.len() as int), name)
        }
    }

    /// An empty table.
    pub fn new() -> (r: ModeTable)
        ensures
            r.entries_seq() == Seq::<ModeEntry>::empty(),
            r.wf(),
    {
        ModeTable { entries: Vec::new() }
    }

    /// Add a mode under a name not yet present.
    pub fn insert(&mut self, name: String, rules: Vec<RuleItem>)
        requires
            old(self).wf(),
            old(self).find_mode(name@) is None,
        ensures
            final(self).wf(),
            final(self).entries_seq() == old(self).entries_seq().push(
                ModeEntry { name, rules },
            ),
    {
        proof {
            lemma_find_in_none_no_name(self.entries_seq(), name@);
        }
        let ghost before = self.entries_seq();
        self.entries.push(ModeEntry { name, rules });
        proof {
            assert forall|i: int, j: int|
                0 <= i < j < self.entries_seq().len() implies self.entries_seq()[i].name@
                != self.entries_seq()[j].name@ by {
                if j < before.len() {
                } else {
                    assert(self.entries_seq()[i] == before[i]);
                }
            }
        }
    }

    /// Look a mode up by name.
    pub fn get(&self, name: &str) -> (r: Option<&Vec<RuleItem>>)
        ensures
            match r {
                Some(rules) => self.find_mode(name@) == Some(rules@),
                None => self.find_mode(name@) is None,
            },
    {
        let ghost whole = self.entries_seq();
        let mut i: usize = 0;
        proof {
            assert(whole.subrange(0, whole.len() as int) =~= whole);
        }
        while i < self.entries.len()
            invariant
                i <= whole.len(),
                self.entries_seq() == whole,
                Self::find_in(whole, name@) == Self::find_in(
                    whole.subrange(i as int, whole.len() as int),
                    name@,
                ),
            decreases whole.len() - i,
        {
            let ghost rest = whole.subrange(i as int, whole.len() as int);
            proof {
                assert(rest[0] == whole[i as int]);
                assert(rest.subrange(1, rest.len() as int) =~= whole.subrange(
                    i + 1,
                    whole.len() as int,
                ));
            }
            if str_eq(self.entries[i].name.as_str(), name) {
                return Some(&self.entries[i].rules);
            }
            i = i + 1;
        }
        None
    }
}

/// If a name is absent from the table, no entry carries it.
proof fn lemma_find_in_none_no_name(entries: Seq<ModeEntry>, name: Seq<char>)
    requires
        ModeTable::find_in(entries, name) is None,
    ensures
        forall|i: int| 0 <= i < entries.len() ==> entries[i].name@ != name,
    decreases entries.len(),
{
    if entries.len() > 0 {
        let rest = entries.subrange(1, entries.len() as int);
        lemma_find_in_none_no_name(rest, name);
        assert forall|i: int| 0 <= i < entries.len() implies entries[i].name@ != name by {
            if i > 0 {
                assert(entries[i] == rest[i - 1]);
            }
        }
    }
}

} // verus!

verus! {

use crate::config::Config;

/// Building the mode table failed. The fixed built-in modes always build;
/// the variant is carried for configurations that later grow checked rules.
#[derive(Clone, Copy, PartialEq, Eq, Structural, Debug)]
pub struct BuildError;

/// Build the fixed built-in modes: `GLOBAL` with the single catch-all rule,
/// `DIRECT` with the single direct rule, and `RULE` assembled from the
/// configured rule entries, which yield no checked classifiers yet and so
/// leave it empty. The table holds these three modes and nothing else.
pub fn build_modes(config: &Config) -> (r: Result<ModeTable, BuildError>)
    ensures
        r is Ok,
        r.unwrap().wf(),
        r.unwrap().entries_seq().len() == 3,
        r.unwrap().entries_seq()[0].name@ == "GLOBAL"@,
        r.unwrap().entries_seq()[1].name@ == "DIRECT"@,
        r.unwrap().entries_seq()[2].name@ == "RULE"@,
        r.unwrap().find_mode("GLOBAL"@) == Some(seq![RuleItem::Global(Global {  })]),
        r.unwrap().find_mode("DIRECT"@) == Some(seq![RuleItem::Direct(Direct {  })]),
        r.unwrap().find_mode("RULE"@) == Some(Seq::<RuleItem>::empty()),
{
    proof {
        reveal_strlit("GLOBAL");
        reveal_strlit("DIRECT");
        reveal_strlit("RULE");
        assert("GLOBAL"@.len() == 6);
        assert("DIRECT"@.len() == 6);
        assert("RULE"@.len() == 4);
        assert("GLOBAL"@[0] == 'G');
        assert("DIRECT"@[0] == 'D');
        assert("GLOBAL"@ != "DIRECT"@);
    }
    let mut table = ModeTable::new();
    let mut global_rules: Vec<RuleItem> = Vec::new();
    global_rules.push(RuleItem::Global(Global {}));
    let mut direct_rules: Vec<RuleItem> = Vec::new();
    direct_rules.push(RuleItem::Direct(Direct {}));
    let rule_rules: Vec<RuleItem> = Vec::new();
    proof {
        assert(global_rules@ =~= seq![RuleItem::Global(Global {  })]);
        assert(direct_rules@ =~= seq![RuleItem::Direct(Direct {  })]);
    }
    table.insert(String::from_str("GLOBAL"), global_rules);
    proof {
        reveal_with_fuel(ModeTable::find_in, 5);
        let e = table.entries_seq();
        assert(e.len() == 1);
        assert(e[0].name@ == "GLOBAL"@);
        assert(e.subrange(1, 1) =~= Seq::<ModeEntry>::empty());
        assert(ModeTable::find_in(e, "DIRECT"@) is None);
    }
    table.insert(String::from_str("DIRECT"), direct_rules);
    proof {
        reveal_with_fuel(ModeTable::find_in, 5);
        let e = table.entries_seq();
        assert(e.len() == 2);
        assert(e[0].name@ == "GLOBAL"@);
        assert(e[1].name@ == "DIRECT"@);
        assert(e.subrange(1, 2) =~= seq![e[1]]);
        assert(e.subrange(1, 2).subrange(1, 1) =~= Seq::<ModeEntry>::empty());
        assert(ModeTable::find_in(e, "RULE"@) is None);
    }
    table.insert(String::from_str("RULE"), rule_rules);
    proof {
        reveal_with_fuel(ModeTable::find_in, 5);
        let e = table.entries_seq();
        assert(e.len() == 3);
        assert(e[0].name@ == "GLOBAL"@);
        assert(e[1].name@ == "DIRECT"@);
        assert(e[2].name@ == "RULE"@);
        assert(e[1].rules@ =~= seq![RuleItem::Direct(Direct {  })]);
        assert(e[2].rules@ =~= Seq::<RuleItem>::empty());
        assert(e.subrange(1, 3) =~= seq![e[1], e[2]]);
        assert(e.subrange(1, 3).subrange(1, 2) =~= seq![e[2]]);
        assert(e.subrange(1, 3).subrange(1, 2).subrange(1, 1) =~= Seq::<ModeEntry>::empty());
        assert(ModeTable::find_in(e, "GLOBAL"@) == Some(seq![RuleItem::Global(Global {  })]));
        assert(ModeTable::find_in(e, "DIRECT"@) == Some(seq![RuleItem::Direct(Direct {  })]));
        assert(ModeTable::find_in(e, "RULE"@) == Some(Seq::<RuleItem>::empty()));
    }
    Ok(table)
}

// ---------------------------------------------------------------------------
// Laws of rule evaluation
// ---------------------------------------------------------------------------

/// First match wins: if every rule before position `i` declines and the rule
/// at `i` resolves, the mode resolves to exactly that rule's answer. Order
/// is significant: the result is pinned to the earliest matching rule.
pub proof fn lemma_first_match_wins(rules: Seq<RuleItem>, cm: ConnectionMeta, i: int)
    requires
        0 <= i < rules.len(),
        rule_eval(rules[i], cm) is Some,
        forall|j: int| 0 <= j < i ==> rule_eval(#[trigger] rules[j], cm) is None,
    ensures
        first_match(rules, cm) == rule_eval(rules[i], cm),
    decreases i,
{
    if i > 0 {
        let rest = rules.subrange(1, rules.len() as int);
        assert(rest[i - 1] == rules[i]);
        assert(forall|j: int| 0 <= j < i - 1 ==> rest[j] == #[trigger] rules[j + 1]);
        lemma_first_match_wins(rest, cm, i - 1);
    }
}

/// If no rule of the mode resolves, evaluation yields no match.
pub proof fn lemma_no_rule_no_match(rules: Seq<RuleItem>, cm: ConnectionMeta)
    requires
        forall|j: int| 0 <= j < rules.len() ==> rule_eval(#[trigger] rules[j], cm) is None,
    ensures
        first_match(rules, cm) is None,
    decreases rules.len(),
{
    if rules.len() > 0 {
        let rest = rules.subrange(1, rules.len() as int);
        assert(forall|j: int| 0 <= j < rest.len() ==> rest[j] == #[trigger] rules[j + 1]);
        lemma_no_rule_no_match(rest, cm);
    }
}

/// The `GLOBAL` mode resolves every connection, whatever its metadata, to
/// the fixed catch-all outbound name.
pub proof fn lemma_global_mode_total(rules: Seq<RuleItem>, cm: ConnectionMeta)
    requires
        rules == seq![RuleItem::Global(Global {  })],
    ensures
        first_match(rules, cm) == Some(direct_name()),
{
}

/// The `DIRECT` mode resolves every connection to the direct outbound name.
pub proof fn lemma_direct_mode_total(rules: Seq<RuleItem>, cm: ConnectionMeta)
    requires
        rules == seq![RuleItem::Direct(Direct {  })],
    ensures
        first_match(rules, cm) == Some(direct_name()),
{
}

} // verus!
