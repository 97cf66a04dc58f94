//! The servers of the project configuration: adding, removing and finding
//! them. Reading and writing the configuration file is left to the caller.
use vstd::prelude::*;
use crate::error::InspectorError;
use crate::models::project_config::{ProjectConfig, ServerEntry};
use crate::text::{concat3, str_eq};

verus! {

/// Whether a server of `s` is called `name`.
pub open spec fn has_server(s: Seq<ServerEntry>, name: Seq<char>) -> bool {
    exists|i: int| 0 <= i < s.len() && #[trigger] s[i].name@ == name
}

/// Adds `entry`, unless a server of the same name exists.
pub fn add_server(config: &mut ProjectConfig, entry: ServerEntry) -> (r: Result<(), InspectorError>)
    ensures
        r is Err <==> has_server(old(config).servers@, entry.name@),
        r matches Err(e) ==> e matches InspectorError::Config(m) && m@ == "サーバー '"@ + entry.name@ + "' は既に存在します"@,
        r is Ok ==> final(config).servers@ == old(config).servers@.push(entry),
        r is Err ==> final(config).servers@ == old(config).servers@,
        final(config).logging == old(config).logging,
        final(config).execution_config == old(config).execution_config,
{
    let mut i: usize = 0;
    while i < config.servers.len()
        invariant
            i <= config.servers@.len(),
            forall|k: int| 0 <= k < i ==> config.servers@[k].name@ != entry.name@,
        decreases config.servers@.len() - i,
    {
        if str_eq(config.servers[i].name.as_str(), entry.name.as_str()) {
            assert(config.servers@[i as int].name@ == entry.name@);
            return Err(InspectorError::Config(concat3("サーバー '", entry.name.as_str(), "' は既に存在します")));
        }
        i = i + 1;
    }
    config.servers.push(entry);
    Ok(())
}

/// Removes every server called `name`; an error when there is none.
pub fn remove_server(config: &mut ProjectConfig, name: &str) -> (r: Result<(), InspectorError>)
    ensures
        r is Err <==> !has_server(old(config).servers@, name@),
        r matches Err(e) ==> e matches InspectorError::Config(m) && m@ == "サーバー '"@ + name@ + "' が見つかりません"@,
        final(config).servers@ == old(config).servers@.filter(|e: ServerEntry| e.name@ != name@),
        final(config).logging == old(config).logging,
        final(config).execution_config == old(config).execution_config,
{
    let ghost p = |e: ServerEntry| e.name@ != name@;
    let ghost all = config.servers@;
    let n = config.servers.len();
    let mut rest: Vec<ServerEntry> = Vec::new();
    std::mem::swap(&mut rest, &mut config.servers);
    let mut kept: Vec<ServerEntry> = Vec::new();
    let mut i: usize = 0;
    let mut found = false;
    while rest.len() > 0
        invariant
            p == (|e: ServerEntry| e.name@ != name@),
            all.len() == n,
            rest@ == all.skip(i as int),
            rest@.len() + i == all.len(),
            kept@ == all.take(i as int).filter(p),
            found <==> exists|k: int| 0 <= k < i && #[trigger] all[k].name@ == name@,
            config.logging == old(config).logging,
            config.execution_config == old(config).execution_config,
        decreases rest@.len(),
    {
        let e = rest.remove(0);
        proof {
            assert(all.skip(i as int)[0] == e);
            assert(all[i as int] == e);
            assert(all.take(i + 1) =~= all.take(i as int).push(e));
            all.take(i as int).lemma_filter_push(e, p);
            assert(all.skip(i + 1) =~= all.skip(i as int).remove(0));
        }
        if str_eq(e.name.as_str(), name) {
            found = true;
        } else {
            kept.push(e);
        }
        i = i + 1;
    }
    assert(all.take(all.len() as int) =~= all);
    config.servers = kept;
    if !found {
        return Err(InspectorError::Config(concat3("サーバー '", name, "' が見つかりません")));
    }
    Ok(())
}

/// The servers of the configuration.
pub fn list_servers(config: ProjectConfig) -> (r: Vec<ServerEntry>)
    ensures
        r@ == config.servers@,
{
    config.servers
}

/// The first server called `name`, if any.
pub fn get_server(config: ProjectConfig, name: &str) -> (r: Option<ServerEntry>)
    ensures
        r is Some <==> has_server(config.servers@, name@),
        r matches Some(e) ==> exists|i: int| 0 <= i < config.servers@.len() && config.servers@[i] == e
            && e.name@ == name@ && forall|k: int| 0 <= k < i ==> #[trigger] config.servers@[k].name@ != name@,
{
    let ghost all = config.servers@;
    let n = config.servers.len();
    let mut rest = config.servers;
    let mut i: usize = 0;
    while rest.len() > 0
        invariant
            rest@ == all.skip(i as int),
            all == config.servers@,
            all.len() == n,
            rest@.len() + i == all.len(),
            forall|k: int| 0 <= k < i ==> #[trigger] all[k].name@ != name@,
        decreases rest@.len(),
    {
        let e = rest.remove(0);
        proof {
            assert(all.skip(i as int)[0] == e);
            assert(all[i as int] == e);
            assert(all.skip(i + 1) =~= all.skip(i as int).remove(0));
        }
        if str_eq(e.name.as_str(), name) {
            assert(all[i as int].name@ == name@);
            assert(all == config.servers@);
            assert(has_server(config.servers@, name@));
            return Some(e);
        }
        i = i + 1;
    }
    None
}

/// After a server is added it is found; after a name is removed no server of
/// that name is left, and servers of other names stay.
pub proof fn lemma_add_then_remove(s: Seq<ServerEntry>, e: ServerEntry, name: Seq<char>, other: Seq<char>)
    ensures
        has_server(s.push(e), e.name@),
        !has_server(s.filter(|x: ServerEntry| x.name@ != name), name),
        other != name && has_server(s, other) ==> has_server(s.filter(|x: ServerEntry| x.name@ != name), other),
{
    let p = |x: ServerEntry| x.name@ != name;
    assert(s.push(e)[s.len() as int] == e);
    let f = s.filter(p);
    if has_server(f, name) {
        let i = choose|i: int| 0 <= i < f.len() && #[trigger] f[i].name@ == name;
        s.lemma_filter_pred(p, i);
    }
    if other != name && has_server(s, other) {
        let i = choose|i: int| 0 <= i < s.len() && #[trigger] s[i].name@ == other;
        s.lemma_filter_contains(p, i);
        let j = choose|j: int| 0 <= j < f.len() && f[j] == s[i];
        assert(f[j].name@ == other);
    }
}

} // verus!
