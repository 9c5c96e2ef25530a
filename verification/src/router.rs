//! Routing decisions: from connection metadata to a chosen outbound
//! backend, and the startup step that builds the backend registry.
//!
//! Every failure is isolated to the one connection being routed; a no-match
//! or an unknown name refuses that connection and nothing else.

use vstd::prelude::*;

use crate::config::{ProxyConfig, ProxyKind};
use crate::meta::ConnectionMeta;
use crate::outbound::{Direct, DuplicateNameError, NotFoundError, Outbound, Registry};
use crate::rules::{first_match, lookup, ModeTable, NoMatchError, RuleItem};

verus! {

/// Why routing refused a connection.
#[derive(Clone, Copy, PartialEq, Eq, Structural, Debug)]
pub enum RouteError {
    /// The requested mode name is not in the table.
    ModeNotFound,
    /// No rule of the mode matched; the connection is to be dropped.
    NoMatch(NoMatchError),
    /// A rule resolved to a name that no backend registered.
    OutboundNotFound(NotFoundError),
}

/// The routing decision on given tables, as a value.
pub enum RouteChoice {
    ModeMissing,
    NoMatch,
    OutboundMissing { name: Seq<char> },
    Chosen { outbound: Outbound },
}

/// What routing decides for `cm` under `mode_name`: look the mode up,
/// take the first matching rule's outbound name, and look that name up in
/// the registry.
pub open spec fn route_spec(
    table: ModeTable,
    registry: Registry,
    mode_name: Seq<char>,
    cm: ConnectionMeta,
) -> RouteChoice {
    match table.find_mode(mode_name) {
        None => RouteChoice::ModeMissing,
        Some(rules) => match first_match(rules, cm) {
            None => RouteChoice::NoMatch,
            Some(name) => match registry.find_spec(name) {
                None => RouteChoice::OutboundMissing { name },
                Some(o) => RouteChoice::Chosen { outbound: o },
            },
        },
    }
}

/// Resolve a connection to its outbound backend: evaluate the named mode's
/// rules in order and look the first match up in the registry. Succeeds
/// exactly when the mode exists, a rule matches, and the name is registered.
pub fn select_outbound<'a>(
    table: &ModeTable,
    registry: &'a Registry,
    mode_name: &str,
    cm: &ConnectionMeta,
) -> (r: Result<&'a Outbound, RouteError>)
    ensures
        match route_spec(*table, *registry, mode_name@, *cm) {
            RouteChoice::ModeMissing => r == Err::<&'a Outbound, RouteError>(
                RouteError::ModeNotFound,
            ),
            RouteChoice::NoMatch => r == Err::<&'a Outbound, RouteError>(
                RouteError::NoMatch(NoMatchError),
            ),
            RouteChoice::OutboundMissing { .. } => r == Err::<&'a Outbound, RouteError>(
                RouteError::OutboundNotFound(NotFoundError),
            ),
            RouteChoice::Chosen { outbound } => r is Ok && *r.unwrap() == outbound,
        },
{
    let rules = match table.get(mode_name) {
        None => {
            return Err(RouteError::ModeNotFound);
        },
        Some(rules) => rules,
    };
    let name = match lookup(rules, cm) {
        Err(e) => {
            return Err(RouteError::NoMatch(e));
        },
        Ok(name) => name,
    };
    match registry.lookup(name.as_str()) {
        Err(e) => Err(RouteError::OutboundNotFound(e)),
        Ok(o) => Ok(o),
    }
}

// ---------------------------------------------------------------------------
// Building the registry from configuration
// ---------------------------------------------------------------------------

/// The names of the direct-kind backends of a configuration, in order.
pub open spec fn direct_names(ps: Seq<ProxyConfig>) -> Seq<Seq<char>>
    decreases ps.len(),
{
    if ps.len() == 0 {
        Seq::empty()
    } else if ps.last().kind == ProxyKind::Direct {
        direct_names(ps.drop_last()).push(ps.last().name@)
    } else {
        direct_names(ps.drop_last())
    }
}

/// No name occurs twice.
pub open spec fn names_unique(names: Seq<Seq<char>>) -> bool {
    forall|i: int, j: int| 0 <= i < j < names.len() ==> names[i] != names[j]
}

/// The registry that a backend listing builds: well-formed, one entry per
/// direct-kind name, in order, each a direct backend under that name.
pub open spec fn registry_matches(reg: Registry, ps: Seq<ProxyConfig>) -> bool {
    &&& reg.wf()
    &&& reg.entries_seq().len() == direct_names(ps).len()
    &&& forall|i: int|
        0 <= i < reg.entries_seq().len() ==> #[trigger] reg.entries_seq()[i].0@
            == direct_names(ps)[i] && reg.entries_seq()[i].1.name_spec() == direct_names(ps)[i]
}

/// Build the backend registry from the configured backends: one direct
/// backend per direct-kind entry, registered in configuration order. Other
/// kinds are dialed by implementations outside this crate and add nothing
/// here. Fails exactly when two direct entries share a name.
pub fn build_registry(proxies: &Vec<ProxyConfig>) -> (r: Result<Registry, DuplicateNameError>)
    ensures
        r is Ok <==> names_unique(direct_names(proxies@)),
        match r {
            Ok(reg) => registry_matches(reg, proxies@),
            Err(_) => true,
        },
{
    let ghost all = proxies@;
    let mut reg = Registry::new();
    let mut i: usize = 0;
    proof {
        assert(all.take(0) =~= Seq::<ProxyConfig>::empty());
    }
    while i < proxies.len()
        invariant
            i <= all.len(),
            proxies@ == all,
            reg.wf(),
            names_unique(direct_names(all.take(i as int))),
            reg.entries_seq().len() == direct_names(all.take(i as int)).len(),
            forall|j: int|
                0 <= j < reg.entries_seq().len() ==> #[trigger] reg.entries_seq()[j].0@
                    == direct_names(all.take(i as int))[j] && reg.entries_seq()[j].1.name_spec()
                    == direct_names(all.take(i as int))[j],
        decreases all.len() - i,
    {
        let ghost prefix = all.take(i as int);
        let ghost next = all.take(i + 1);
        proof {
            assert(next.drop_last() =~= prefix);
            assert(next.last() == all[i as int]);
        }
        let p = &proxies[i];
        match p.kind {
            ProxyKind::Direct => {
                let ghost names_before = direct_names(prefix);
                let d = Direct::new(p.name.as_str());
                match reg.register(p.name.clone(), Outbound::Direct(d)) {
                    Ok(_) => {
                        proof {
                            assert(direct_names(next) == names_before.push(p.name@));
                            assert(names_unique(direct_names(next))) by {
                                lemma_absent_name_not_listed(reg, names_before, p.name@);
                            }
                        }
                    },
                    Err(e) => {
                        proof {
                            let k = lemma_present_name_listed(reg, names_before, p.name@);
                            assert(direct_names(next)[k] == direct_names(next)[
                                names_before.len() as int]);
                            lemma_direct_names_prefix(all, i + 1);
                        }
                        return Err(e);
                    },
                }
            },
            _ => {
                proof {
                    assert(direct_names(next) == direct_names(prefix));
                }
            },
        }
        i = i + 1;
    }
    proof {
        assert(all.take(all.len() as int) =~= all);
        assert(all.take(i as int) == all);
        assert(reg.entries_seq().len() == direct_names(all).len());
        assert forall|j: int|
            0 <= j < reg.entries_seq().len() implies #[trigger] reg.entries_seq()[j].0@
            == direct_names(all)[j] && reg.entries_seq()[j].1.name_spec() == direct_names(
            all,
        )[j] by {
            assert(reg.entries_seq()[j].0@ == direct_names(all.take(i as int))[j]);
            assert(reg.entries_seq()[j].1.name_spec() == direct_names(all.take(i as int))[j]);
        }
        assert(names_unique(direct_names(all)));
        assert(registry_matches(reg, all));
    }
    Ok(reg)
}

/// A name absent from the registry differs from every name registered so
/// far; pushing it keeps the listed names unique.
proof fn lemma_absent_name_not_listed(reg: Registry, names: Seq<Seq<char>>, name: Seq<char>)
    requires
        names_unique(names),
        reg.entries_seq().len() == names.len() + 1,
        forall|j: int|
            0 <= j < names.len() ==> #[trigger] reg.entries_seq()[j].0@ == names[j],
        reg.entries_seq().last().0@ == name,
        reg.wf(),
    ensures
        names_unique(names.push(name)),
{
    let pushed = names.push(name);
    assert forall|i: int, j: int| 0 <= i < j < pushed.len() implies pushed[i] != pushed[j] by {
        if j == names.len() {
            assert(reg.entries_seq()[i].0@ == names[i]);
            assert(reg.entries_seq()[j].0@ == name);
        }
    }
}

/// A name already registered occurs among the names listed so far.
proof fn lemma_present_name_listed(reg: Registry, names: Seq<Seq<char>>, name: Seq<char>) -> (k:
    int)
    requires
        reg.find_spec(name) is Some,
        reg.entries_seq().len() == names.len(),
        forall|j: int|
            0 <= j < names.len() ==> #[trigger] reg.entries_seq()[j].0@ == names[j],
    ensures
        0 <= k < names.len(),
        names[k] == name,
{
    let k = lemma_find_some_index(reg.entries_seq(), name);
    k
}

/// If a lookup succeeds, some entry carries the name.
proof fn lemma_find_some_index(entries: Seq<(String, Outbound)>, name: Seq<char>) -> (k: int)
    requires
        Registry::find_in(entries, name) is Some,
    ensures
        0 <= k < entries.len(),
        entries[k].0@ == name,
    decreases entries.len(),
{
    if entries[0].0@ == name {
        0
    } else {
        let rest = entries.subrange(1, entries.len() as int);
        let k = lemma_find_some_index(rest, name);
        assert(rest[k] == entries[k + 1]);
        k + 1
    }
}

/// Uniqueness of the whole listing restricts to every prefix.
proof fn lemma_direct_names_prefix(ps: Seq<ProxyConfig>, i: int)
    requires
        0 <= i <= ps.len(),
        !names_unique(direct_names(ps.take(i))),
    ensures
        !names_unique(direct_names(ps)),
    decreases ps.len() - i,
{
    if i < ps.len() {
        let a = direct_names(ps.take(i));
        let b = direct_names(ps.take(i + 1));
        assert(ps.take(i + 1).drop_last() =~= ps.take(i));
        assert forall|x: int, y: int|
            0 <= x < y < a.len() && a[x] == a[y] implies b[x] == b[y] by {
            if ps.take(i + 1).last().kind == ProxyKind::Direct {
                assert(b == a.push(ps.take(i + 1).last().name@));
            }
        }
        assert(!names_unique(b));
        lemma_direct_names_prefix(ps, i + 1);
    } else {
        assert(ps.take(i) =~= ps);
    }
}

} // verus!
