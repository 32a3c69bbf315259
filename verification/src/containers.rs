//! The container port index: a point-in-time mapping from host port to the
//! running container that publishes it, rebuilt wholesale on refresh.
//! The container source itself (listing and lifecycle RPC) lives outside
//! the library and hands in plain `ContainerInfo` values.

use vstd::prelude::*;
use crate::models::ContainerAction;
use crate::models::ContainerInfo;
use crate::models::ContainerInfoV;
use crate::models::ContainerPort;
use crate::models::ContainerPortV;
use crate::models::KillResult;

verus! {

/// The container publishes host port `p` through one of its bindings.
pub open spec fn binds_port(c: ContainerInfoV, p: u16) -> bool {
    exists|i: int| 0 <= i < c.ports.len() && (#[trigger] c.ports[i]).host_port == p
}

/// The views of a container listing.
pub open spec fn container_views(cs: Seq<ContainerInfo>) -> Seq<ContainerInfoV> {
    cs.map_values(|c: ContainerInfo| c@)
}

/// The owner of host port `p` after a wholesale rebuild from the listing
/// `cs`: the last container in the listing that publishes `p`
/// (last-write-wins), or nothing.
pub open spec fn index_spec(cs: Seq<ContainerInfoV>, p: u16) -> Option<ContainerInfoV>
    decreases cs.len(),
{
    if cs.len() == 0 {
        None
    } else if binds_port(cs.last(), p) {
        Some(cs.last())
    } else {
        index_spec(cs.drop_last(), p)
    }
}

/// Association entries keyed by host port; a later entry overrides an
/// earlier one with the same port.
pub open spec fn entries_lookup(es: Seq<(u16, ContainerInfoV)>, p: u16) -> Option<ContainerInfoV>
    decreases es.len(),
{
    if es.len() == 0 {
        None
    } else if es.last().0 == p {
        Some(es.last().1)
    } else {
        entries_lookup(es.drop_last(), p)
    }
}

/// Copies an optional string.
fn copy_opt_string(s: &Option<String>) -> (r: Option<String>)
    ensures
        r == *s,
{
    match s {
        Some(x) => Some(x.clone()),
        None => None,
    }
}

/// Copies one port binding.
fn copy_port(p: &ContainerPort) -> (r: ContainerPort)
    ensures
        r@ == p@,
{
    ContainerPort {
        host_port: p.host_port,
        container_port: p.container_port,
        protocol: p.protocol,
        host_ip: copy_opt_string(&p.host_ip),
    }
}

/// Copies a container record field by field.
fn copy_container(c: &ContainerInfo) -> (r: ContainerInfo)
    ensures
        r@ == c@,
{
    let mut ports: Vec<ContainerPort> = Vec::new();
    let mut i: usize = 0;
    while i < c.ports.len()
        invariant
            i <= c.ports@.len(),
            ports@.len() == i,
            forall|j: int| 0 <= j < i ==> (#[trigger] ports@[j])@ == c.ports@[j]@,
        decreases c.ports@.len() - i,
    {
        ports.push(copy_port(&c.ports[i]));
        i = i + 1;
    }
    let r = ContainerInfo {
        id: c.id.clone(),
        name: c.name.clone(),
        image: c.image.clone(),
        status: c.status.clone(),
        state: c.state.clone(),
        runtime: c.runtime,
        ports,
    };
    proof {
        assert(r@.ports =~= c@.ports);
        assert(r@ =~= c@);
    }
    r
}

/// The point-in-time port index, plus the availability flag of the
/// container source it was built from.
#[derive(Debug, Clone)]
pub struct ContainerPortIndex {
    /// Whether the underlying container-source connection succeeded.
    pub available: bool,
    /// The rebuilt entries; a later entry overrides an earlier one.
    pub entries: Vec<(u16, ContainerInfo)>,
}

/// The entries with their containers taken to views.
pub open spec fn entry_views(es: Seq<(u16, ContainerInfo)>) -> Seq<(u16, ContainerInfoV)> {
    es.map_values(|e: (u16, ContainerInfo)| (e.0, e.1@))
}

impl ContainerPortIndex {
    /// What the index maps host port `p` to.
    pub open spec fn lookup(self, p: u16) -> Option<ContainerInfoV> {
        entries_lookup(entry_views(self.entries@), p)
    }

    /// An empty index with the given availability flag.
    pub fn new(available: bool) -> (r: Self)
        ensures
            r.available == available,
            forall|p: u16| r.lookup(p) is None,
    {
        ContainerPortIndex { available, entries: Vec::new() }
    }

    /// Whether the underlying container source is reachable.  When it is
    /// not, every container query degrades to an empty result.
    pub fn is_available(&self) -> (r: bool)
        ensures
            r == self.available,
    {
        self.available
    }

    /// Rebuilds the index wholesale from a listing of the running
    /// containers: the prior contents are discarded, and for every host
    /// port published by some running container the last publisher in the
    /// listing wins.
    pub fn refresh(&mut self, running: &Vec<ContainerInfo>)
        ensures
            final(self).available == old(self).available,
            forall|p: u16| final(self).lookup(p) == index_spec(container_views(running@), p),
    {
        self.entries.clear();
        let ghost cviews: Seq<ContainerInfoV> = container_views(running@);
        proof {
            assert(entry_views(self.entries@) =~= Seq::<(u16, ContainerInfoV)>::empty());
        }
        let mut ci: usize = 0;
        while ci < running.len()
            invariant
                ci <= running@.len(),
                cviews == container_views(running@),
                cviews.len() == running@.len(),
                self.available == old(self).available,
                forall|p: u16| entries_lookup(entry_views(self.entries@), p) == index_spec(
                    cviews.subrange(0, ci as int),
                    p,
                ),
            decreases running@.len() - ci,
        {
            let c: &ContainerInfo = &running[ci];
            let ghost base: Seq<(u16, ContainerInfoV)> = entry_views(self.entries@);
            let mut bi: usize = 0;
            while bi < c.ports.len()
                invariant
                    bi <= c.ports@.len(),
                    self.available == old(self).available,
                    c == &running@[ci as int],
                    0 <= ci < running@.len(),
                    forall|p: u16| entries_lookup(entry_views(self.entries@), p) == (if (
                    exists|k: int| 0 <= k < bi && (#[trigger] c.ports@[k])@.host_port == p) {
                        Some(c@)
                    } else {
                        entries_lookup(base, p)
                    }),
                decreases c.ports@.len() - bi,
            {
                let port: u16 = c.ports[bi].host_port;
                let ghost before: Seq<(u16, ContainerInfoV)> = entry_views(self.entries@);
                self.entries.push((port, copy_container(c)));
                proof {
                    let after = entry_views(self.entries@);
                    assert(after =~= before.push((port, c@)));
                    assert(after.drop_last() =~= before);
                    assert(c.ports@[bi as int]@.host_port == port);
                    assert(forall|p: u16| entries_lookup(after, p) == (if p == port {
                        Some(c@)
                    } else {
                        entries_lookup(before, p)
                    }));
                }
                bi = bi + 1;
            }
            proof {
                let pre = cviews.subrange(0, ci as int);
                let cur = cviews.subrange(0, ci + 1);
                assert(cur.last() == cviews[ci as int]);
                assert(cviews[ci as int] == c@);
                assert(cur.drop_last() =~= pre);
                assert forall|p: u16|
                    entries_lookup(entry_views(self.entries@), p) == index_spec(cur, p) by {
                    if binds_port(c@, p) {
                        let i = choose|i: int|
                            0 <= i < c@.ports.len() && (#[trigger] c@.ports[i]).host_port == p;
                        assert(c@.ports[i] == c.ports@[i]@);
                        assert(exists|k: int|
                            0 <= k < c.ports@.len() && (#[trigger] c.ports@[k])@.host_port == p);
                        assert(entries_lookup(entry_views(self.entries@), p) == Some(c@));
                        assert(index_spec(cur, p) == Some(c@));
                    } else {
                        assert forall|k: int|
                            0 <= k < c.ports@.len() implies (#[trigger] c.ports@[k])@.host_port
                            != p by {
                            assert(c@.ports[k] == c.ports@[k]@);
                        }
                        assert(entries_lookup(entry_views(self.entries@), p) == entries_lookup(
                            base,
                            p,
                        ));
                        assert(index_spec(cur, p) == index_spec(pre, p));
                    }
                }
            }
            ci = ci + 1;
        }
        proof {
            assert(cviews.subrange(0, running@.len() as int) =~= cviews);
        }
    }

    /// Looks up the running container publishing `port`; absence means no
    /// running container publishes that host port.
    pub fn get_container_for_port(&self, port: u16) -> (r: Option<ContainerInfo>)
        ensures
            match r {
                Some(c) => self.lookup(port) == Some(c@),
                None => self.lookup(port) is None,
            },
    {
        let ghost ev: Seq<(u16, ContainerInfoV)> = entry_views(self.entries@);
        let mut i: usize = self.entries.len();
        proof {
            assert(ev.subrange(0, i as int) =~= ev);
        }
        while i > 0
            invariant
                ev == entry_views(self.entries@),
                i <= self.entries@.len(),
                ev.len() == self.entries@.len(),
                entries_lookup(ev, port) == entries_lookup(ev.subrange(0, i as int), port),
            decreases i,
        {
            let j: usize = i - 1;
            proof {
                assert(ev.subrange(0, j + 1).last() == ev[j as int]);
                assert(ev.subrange(0, j + 1).drop_last() =~= ev.subrange(0, j as int));
                assert(ev[j as int] == (self.entries@[j as int].0, self.entries@[j as int].1@));
            }
            if self.entries[j].0 == port {
                return Some(copy_container(&self.entries[j].1));
            }
            i = j;
        }
        proof {
            assert(ev.subrange(0, 0).len() == 0);
        }
        None
    }
}

/// Law: rebuilding the index twice from an unchanged running-container
/// listing yields identical contents both times.
pub proof fn lemma_refresh_idempotent(
    a: ContainerPortIndex,
    b: ContainerPortIndex,
    running: Seq<ContainerInfo>,
)
    requires
        forall|p: u16| a.lookup(p) == index_spec(container_views(running), p),
        forall|p: u16| b.lookup(p) == index_spec(container_views(running), p),
    ensures
        forall|p: u16| a.lookup(p) == b.lookup(p),
{
}

/// The display label of a container action.
pub open spec fn action_label(a: ContainerAction) -> Seq<char> {
    match a {
        ContainerAction::Stop => "Stop"@,
        ContainerAction::Kill => "Kill"@,
        ContainerAction::Remove => "Remove"@,
        ContainerAction::Restart => "Restart"@,
    }
}

/// The display label of a container action.
pub fn action_label_exec(a: &ContainerAction) -> (r: &'static str)
    ensures
        r@ == action_label(*a),
{
    match a {
        ContainerAction::Stop => "Stop",
        ContainerAction::Kill => "Kill",
        ContainerAction::Remove => "Remove",
        ContainerAction::Restart => "Restart",
    }
}

/// The outcome reported when a container lifecycle action completed.
pub fn container_action_completed(container_id: &str, action: &ContainerAction) -> (r: KillResult)
    ensures
        r.success,
        !r.required_elevation,
        r.message@ == "Container "@ + container_id@ + " action "@ + action_label(*action)
            + " completed"@,
{
    let label: &'static str = action_label_exec(action);
    let message: String = String::from_str("Container ").concat(container_id).concat(
        " action ",
    ).concat(label).concat(" completed");
    KillResult { success: true, message, required_elevation: false }
}

/// The outcome reported when a container lifecycle action failed; the
/// error text of the container source is carried through.
pub fn container_action_failed(error_text: &str) -> (r: KillResult)
    ensures
        !r.success,
        !r.required_elevation,
        r.message@ == "Container action failed: "@ + error_text@,
{
    let message: String = String::from_str("Container action failed: ").concat(error_text);
    KillResult { success: false, message, required_elevation: false }
}

} // verus!
