//! The correlation engine: fuses socket records, process metadata and the
//! container port index into a deduplicated, pid-ordered list of process
//! nodes with aggregate counters.

use vstd::prelude::*;
use crate::containers::ContainerPortIndex;
use crate::models::PortEntry;
use crate::models::PortInfo;
use crate::models::ProcessInfo;
use crate::models::ProcessNode;
use crate::models::AppState;
use crate::safety::SafetyRegistry;
use crate::safety::check_process_safety;
use crate::safety::safe_verdict;
use crate::strutil::bytes_eq;
use crate::strutil::contains_sub;
use crate::strutil::dec_str;
use crate::strutil::has_sub;
use crate::strutil::folded;
use crate::strutil::lowercase;
use crate::strutil::u32_to_string;
use vstd::string::StrSliceExecFns;
use vstd::string::StringSliceAdditionalSpecFns;
use vstd::utf8::encode_utf8;

verus! {

/// The "any address" forms that are merged into one dedup bucket:
/// wildcard IPv4/IPv6 and loopback IPv4/IPv6.
pub open spec fn is_wildcard_addr(a: Seq<char>) -> bool {
    ||| a == "0.0.0.0"@
    ||| a == "::"@
    ||| a == "::1"@
    ||| a == "127.0.0.1"@
}

/// The dedup bucket of a local address: all wildcard/loopback forms share
/// one bucket; every other address is its own bucket.
pub open spec fn addr_bucket(a: Seq<char>) -> Option<Seq<char>> {
    if is_wildcard_addr(a) {
        None
    } else {
        Some(a)
    }
}

/// Two port entries carry the same dedup key: protocol, local port, and
/// address bucket all agree.
pub open spec fn same_entry_key(a: PortEntry, b: PortEntry) -> bool {
    &&& a.protocol == b.protocol
    &&& a.local_port == b.local_port
    &&& addr_bucket(a.local_address@) == addr_bucket(b.local_address@)
}

/// The port entry a socket record projects to.
pub open spec fn entry_of(r: PortInfo) -> PortEntry {
    PortEntry {
        protocol: r.protocol,
        local_address: r.local_address,
        local_port: r.local_port,
        remote_address: r.remote_address,
        remote_port: r.remote_port,
        state: r.state,
    }
}

/// Some entry of `es` already carries the dedup key of `e`.
pub open spec fn key_in(es: Seq<PortEntry>, e: PortEntry) -> bool {
    exists|i: int| 0 <= i < es.len() && same_entry_key(#[trigger] es[i], e)
}

/// The deduplicated port list of one process: walking the records in
/// order, a record owned by `pid` is kept exactly when no earlier kept
/// record carries its dedup key; later duplicates are discarded.
pub open spec fn dedup_ports(recs: Seq<PortInfo>, pid: u32) -> Seq<PortEntry>
    decreases recs.len(),
{
    if recs.len() == 0 {
        Seq::empty()
    } else {
        let pre = dedup_ports(recs.drop_last(), pid);
        let r = recs.last();
        if r.pids@.contains(pid) && !key_in(pre, entry_of(r)) {
            pre.push(entry_of(r))
        } else {
            pre
        }
    }
}

/// Some record of `recs` is owned by `pid`.
pub open spec fn owns_some_socket(recs: Seq<PortInfo>, pid: u32) -> bool {
    exists|i: int| 0 <= i < recs.len() && (#[trigger] recs[i]).pids@.contains(pid)
}

/// Law: deduplication never drops a process — the deduplicated port list
/// of `pid` is non-empty exactly when some record is owned by `pid`.
pub proof fn lemma_dedup_nonempty(recs: Seq<PortInfo>, pid: u32)
    ensures
        dedup_ports(recs, pid).len() > 0 <==> owns_some_socket(recs, pid),
    decreases recs.len(),
{
    if recs.len() > 0 {
        lemma_dedup_nonempty(recs.drop_last(), pid);
        if recs.last().pids@.contains(pid) {
            assert(recs[recs.len() - 1].pids@.contains(pid));
        }
        if owns_some_socket(recs, pid) && !recs.last().pids@.contains(pid) {
            let i = choose|i: int|
                0 <= i < recs.len() && (#[trigger] recs[i]).pids@.contains(pid);
            assert(recs.drop_last()[i] == recs[i]);
            assert(owns_some_socket(recs.drop_last(), pid));
        }
        if owns_some_socket(recs.drop_last(), pid) {
            let i = choose|i: int|
                0 <= i < recs.drop_last().len() && (#[trigger] recs.drop_last()[i]).pids@.contains(
                    pid,
                );
            assert(recs[i] == recs.drop_last()[i]);
        }
    }
}

/// Law: the deduplicated port list of one process holds no two entries
/// with the same dedup key.
pub proof fn lemma_dedup_distinct(recs: Seq<PortInfo>, pid: u32)
    ensures
        forall|i: int, j: int|
            0 <= i < j < dedup_ports(recs, pid).len() ==> !same_entry_key(
                #[trigger] dedup_ports(recs, pid)[i],
                #[trigger] dedup_ports(recs, pid)[j],
            ),
    decreases recs.len(),
{
    if recs.len() > 0 {
        lemma_dedup_distinct(recs.drop_last(), pid);
        let pre = dedup_ports(recs.drop_last(), pid);
        let d = dedup_ports(recs, pid);
        if recs.last().pids@.contains(pid) && !key_in(pre, entry_of(recs.last())) {
            assert forall|i: int, j: int| 0 <= i < j < d.len() implies !same_entry_key(
                d[i],
                d[j],
            ) by {
                if j == d.len() - 1 {
                    assert(d[i] == pre[i]);
                    assert(!same_entry_key(pre[i], entry_of(recs.last())));
                } else {
                    assert(d[i] == pre[i] && d[j] == pre[j]);
                }
            }
        }
    }
}

/// Law: every record owned by `pid` has its dedup key represented in the
/// deduplicated port list of `pid`.
pub proof fn lemma_dedup_complete(recs: Seq<PortInfo>, pid: u32)
    ensures
        forall|k: int|
            0 <= k < recs.len() && (#[trigger] recs[k]).pids@.contains(pid) ==> key_in(
                dedup_ports(recs, pid),
                entry_of(recs[k]),
            ),
    decreases recs.len(),
{
    if recs.len() > 0 {
        lemma_dedup_complete(recs.drop_last(), pid);
        let pre = dedup_ports(recs.drop_last(), pid);
        let d = dedup_ports(recs, pid);
        assert forall|k: int|
            0 <= k < recs.len() && (#[trigger] recs[k]).pids@.contains(pid) implies key_in(
            d,
            entry_of(recs[k]),
        ) by {
            if k < recs.len() - 1 {
                assert(recs.drop_last()[k] == recs[k]);
                assert(key_in(pre, entry_of(recs[k])));
                let i = choose|i: int|
                    0 <= i < pre.len() && same_entry_key(#[trigger] pre[i], entry_of(recs[k]));
                assert(d[i] == pre[i]);
            } else {
                let e = entry_of(recs.last());
                if key_in(pre, e) {
                    let i = choose|i: int|
                        0 <= i < pre.len() && same_entry_key(#[trigger] pre[i], e);
                    assert(d[i] == pre[i]);
                } else {
                    assert(same_entry_key(d[d.len() - 1], e));
                }
            }
        }
    }
}

/// Whether a pid list contains `pid`.
fn contains_pid(pids: &Vec<u32>, pid: u32) -> (r: bool)
    ensures
        r == pids@.contains(pid),
{
    let mut i: usize = 0;
    while i < pids.len()
        invariant
            i <= pids@.len(),
            forall|j: int| 0 <= j < i ==> pids@[j] != pid,
        decreases pids@.len() - i,
    {
        if pids[i] == pid {
            return true;
        }
        i = i + 1;
    }
    false
}

/// Whether a local address falls into the wildcard/loopback bucket.
fn is_wildcard_exec(a: &String) -> (r: bool)
    ensures
        r == is_wildcard_addr(a@),
{
    let w1: String = String::from_str("0.0.0.0");
    let w2: String = String::from_str("::");
    let w3: String = String::from_str("::1");
    let w4: String = String::from_str("127.0.0.1");
    *a == w1 || *a == w2 || *a == w3 || *a == w4
}

/// Whether two port entries carry the same dedup key.
fn same_entry_key_exec(a: &PortEntry, b: &PortEntry) -> (r: bool)
    ensures
        r == same_entry_key(*a, *b),
{
    if !(a.protocol == b.protocol && a.local_port == b.local_port) {
        return false;
    }
    let wa: bool = is_wildcard_exec(&a.local_address);
    let wb: bool = is_wildcard_exec(&b.local_address);
    if wa && wb {
        true
    } else if !wa && !wb {
        a.local_address == b.local_address
    } else {
        false
    }
}

/// Whether some entry of `es` already carries the dedup key of `e`.
fn key_in_exec(es: &Vec<PortEntry>, e: &PortEntry) -> (r: bool)
    ensures
        r == key_in(es@, *e),
{
    let mut i: usize = 0;
    while i < es.len()
        invariant
            i <= es@.len(),
            forall|j: int| 0 <= j < i ==> !same_entry_key(#[trigger] es@[j], *e),
        decreases es@.len() - i,
    {
        if same_entry_key_exec(&es[i], e) {
            return true;
        }
        i = i + 1;
    }
    false
}

/// Copies an optional string.
fn copy_opt_string(s: &Option<String>) -> (r: Option<String>)
    ensures
        r == *s,
{
    match s {
        Some(x) => Some(x.clone()),
        None => None,
    }
}

/// Projects one socket record to a port entry.
fn entry_from_record(r: &PortInfo) -> (e: PortEntry)
    ensures
        e == entry_of(*r),
{
    PortEntry {
        protocol: r.protocol,
        local_address: r.local_address.clone(),
        local_port: r.local_port,
        remote_address: copy_opt_string(&r.remote_address),
        remote_port: r.remote_port,
        state: r.state,
    }
}

/// Builds the deduplicated port list of one process from the records.
pub fn dedup_ports_exec(recs: &Vec<PortInfo>, pid: u32) -> (es: Vec<PortEntry>)
    ensures
        es@ == dedup_ports(recs@, pid),
{
    let mut es: Vec<PortEntry> = Vec::new();
    proof {
        assert(recs@.subrange(0, 0).len() == 0);
    }
    let mut i: usize = 0;
    while i < recs.len()
        invariant
            i <= recs@.len(),
            es@ == dedup_ports(recs@.subrange(0, i as int), pid),
        decreases recs@.len() - i,
    {
        let ghost pre = recs@.subrange(0, i as int);
        let ghost cur = recs@.subrange(0, i + 1);
        proof {
            assert(cur.drop_last() =~= pre);
            assert(cur.last() == recs@[i as int]);
        }
        let r: &PortInfo = &recs[i];
        if contains_pid(&r.pids, pid) {
            let e: PortEntry = entry_from_record(r);
            if !key_in_exec(&es, &e) {
                es.push(e);
            }
        }
        i = i + 1;
    }
    proof {
        assert(recs@.subrange(0, recs@.len() as int) =~= recs@);
    }
    es
}

/// The metadata record of `pid` in the snapshot, if any: the first record
/// with a matching pid.
pub open spec fn find_proc(procs: Seq<ProcessInfo>, pid: u32) -> Option<ProcessInfo>
    decreases procs.len(),
{
    if procs.len() == 0 {
        None
    } else if procs.first().pid == pid {
        Some(procs.first())
    } else {
        find_proc(procs.drop_first(), pid)
    }
}

/// Looks up the metadata record of `pid` in the snapshot.
pub fn find_proc_exec(procs: &Vec<ProcessInfo>, pid: u32) -> (r: Option<&ProcessInfo>)
    ensures
        match r {
            Some(info) => find_proc(procs@, pid) == Some(*info),
            None => find_proc(procs@, pid) is None,
        },
{
    proof {
        assert(procs@.subrange(0, procs@.len() as int) =~= procs@);
    }
    let mut i: usize = 0;
    while i < procs.len()
        invariant
            i <= procs@.len(),
            find_proc(procs@, pid) == find_proc(procs@.subrange(i as int, procs@.len() as int),
                pid,
            ),
        decreases procs@.len() - i,
    {
        let ghost suf = procs@.subrange(i as int, procs@.len() as int);
        proof {
            assert(suf.first() == procs@[i as int]);
            assert(suf.drop_first() =~= procs@.subrange(i + 1, procs@.len() as int));
        }
        if procs[i].pid == pid {
            return Some(&procs[i]);
        }
        i = i + 1;
    }
    proof {
        assert(procs@.subrange(procs@.len() as int, procs@.len() as int).len() == 0);
    }
    None
}

/// The fixed vocabulary of container-runtime process names: the runtime
/// daemon and desktop helpers, its network-virtualization helper, and the
/// generic "containerd" substring — matched on the lower-cased name.
pub open spec fn proxy_name_spec(name: Seq<char>) -> bool {
    let lb = encode_utf8(folded(name));
    ||| has_sub(lb, "docker".spec_bytes())
    ||| has_sub(lb, "com.docker".spec_bytes())
    ||| lb == "vpnkit".spec_bytes()
    ||| lb == "dockerd".spec_bytes()
    ||| has_sub(lb, "containerd".spec_bytes())
}

/// Whether a process name names a container proxy.
pub fn is_container_proxy_name(name: &str) -> (r: bool)
    ensures
        r == proxy_name_spec(name@),
{
    let lowered: String = lowercase(name);
    proof {
        assert(lowered@ == folded(name@));
    }
    let lb: Vec<u8> = lowered.as_str().as_bytes_vec();
    if contains_sub(lb.as_slice(), "docker".as_bytes()) {
        return true;
    }
    if contains_sub(lb.as_slice(), "com.docker".as_bytes()) {
        return true;
    }
    if bytes_eq(lb.as_slice(), "vpnkit".as_bytes()) {
        return true;
    }
    if bytes_eq(lb.as_slice(), "dockerd".as_bytes()) {
        return true;
    }
    contains_sub(lb.as_slice(), "containerd".as_bytes())
}

/// The display name of `pid` after resolution: the metadata name, or the
/// "Unknown" sentinel when the snapshot has no record for `pid`.
pub open spec fn resolved_name(procs: Seq<ProcessInfo>, pid: u32) -> Seq<char> {
    match find_proc(procs, pid) {
        Some(info) => info.name@,
        None => "Unknown"@,
    }
}

/// The denormalized metadata fields of a node agree with the resolved
/// metadata, or carry the "Unknown" sentinel identity when there is none.
pub open spec fn meta_matches(n: ProcessNode, m: Option<ProcessInfo>) -> bool {
    match m {
        Some(info) => {
            &&& n.name == info.name
            &&& n.exe_path == info.exe_path
            &&& n.command_line == info.command_line
            &&& n.user == info.user
            &&& n.memory_usage == info.memory_usage
            &&& n.cpu_usage == info.cpu_usage
            &&& n.start_time == info.start_time
        },
        None => {
            &&& n.name@ == "Unknown"@
            &&& n.exe_path is None
            &&& n.command_line is None
            &&& n.user@ == "Unknown"@
            &&& n.memory_usage == 0
            &&& n.cpu_usage == 0
            &&& n.start_time is None
        },
    }
}

/// The first port of a port list, or 0 when it is empty.
pub open spec fn first_port_spec(es: Seq<PortEntry>) -> u16 {
    if es.len() == 0 {
        0u16
    } else {
        es.first().local_port
    }
}

/// The identity string of a node: "{pid}-{first port}".
pub open spec fn node_id_spec(pid: u32, port: u16) -> Seq<char> {
    dec_str(pid as nat) + "-"@ + dec_str(port as nat)
}

/// The attached container is resolved through the port index from the
/// node's first port exactly for available container proxies.
pub open spec fn container_ok(n: ProcessNode, index: ContainerPortIndex) -> bool {
    if n.is_docker_proxy && index.available {
        match n.container {
            Some(c) => index.lookup(first_port_spec(n.ports@)) == Some(c@),
            None => index.lookup(first_port_spec(n.ports@)) is None,
        }
    } else {
        n.container is None
    }
}

/// Everything the engine guarantees of one emitted node.
pub open spec fn node_ok(
    n: ProcessNode,
    recs: Seq<PortInfo>,
    procs: Seq<ProcessInfo>,
    index: ContainerPortIndex,
    reg: SafetyRegistry,
) -> bool {
    &&& n.ports@ == dedup_ports(recs, n.pid)
    &&& meta_matches(n, find_proc(procs, n.pid))
    &&& n.is_docker_proxy == proxy_name_spec(resolved_name(procs, n.pid))
    &&& container_ok(n, index)
    &&& n.is_protected == !safe_verdict(reg, n.pid, resolved_name(procs, n.pid))
    &&& n.id@ == node_id_spec(n.pid, first_port_spec(n.ports@))
}

/// Assembles one process node from its deduplicated port list.
fn build_node(
    pid: u32,
    ports: Vec<PortEntry>,
    procs: &Vec<ProcessInfo>,
    index: &ContainerPortIndex,
    reg: &SafetyRegistry,
) -> (n: ProcessNode)
    ensures
        n.pid == pid,
        n.ports == ports,
        meta_matches(n, find_proc(procs@, pid)),
        n.is_docker_proxy == proxy_name_spec(resolved_name(procs@, pid)),
        container_ok(n, *index),
        n.is_protected == !safe_verdict(*reg, pid, resolved_name(procs@, pid)),
        n.id@ == node_id_spec(pid, first_port_spec(ports@)),
{
    let info_opt: Option<&ProcessInfo> = find_proc_exec(procs, pid);
    let (name, exe_path, command_line, user, memory_usage, cpu_usage, start_time): (
        String,
        Option<String>,
        Option<String>,
        String,
        u64,
        u32,
        Option<i64>,
    ) = match info_opt {
        Some(info) => (
            info.name.clone(),
            copy_opt_string(&info.exe_path),
            copy_opt_string(&info.command_line),
            info.user.clone(),
            info.memory_usage,
            info.cpu_usage,
            info.start_time,
        ),
        None => ("Unknown".to_owned(), None, None, "Unknown".to_owned(), 0u64, 0u32, None),
    };
    let is_docker: bool = is_container_proxy_name(name.as_str());
    let first_port: u16 = if ports.len() > 0 {
        ports[0].local_port
    } else {
        0
    };
    let container = if is_docker && index.is_available() {
        index.get_container_for_port(first_port)
    } else {
        None
    };
    let safety = check_process_safety(reg, pid, name.as_str());
    let is_protected: bool = !safety.is_safe();
    let pid_str: String = u32_to_string(pid);
    let port_str: String = u32_to_string(first_port as u32);
    let id: String = pid_str.concat("-").concat(port_str.as_str());
    ProcessNode {
        id,
        pid,
        name,
        exe_path,
        command_line,
        user,
        memory_usage,
        cpu_usage,
        start_time,
        ports,
        is_docker_proxy: is_docker,
        container,
        is_protected,
    }
}

/// The sequence is strictly increasing.
pub open spec fn strictly_sorted(s: Seq<u32>) -> bool {
    forall|i: int, j: int| 0 <= i < j < s.len() ==> s[i] < s[j]
}

/// Inserts a pid into a strictly sorted pid list, keeping it sorted and
/// duplicate-free.
fn insert_pid(pids: &mut Vec<u32>, pid: u32)
    requires
        strictly_sorted(old(pids)@),
    ensures
        strictly_sorted(final(pids)@),
        forall|p: u32| final(pids)@.contains(p) <==> (old(pids)@.contains(p) || p == pid),
{
    let mut i: usize = 0;
    while i < pids.len()
        invariant
            strictly_sorted(pids@),
            pids@ == old(pids)@,
            i <= pids@.len(),
            forall|j: int| 0 <= j < i ==> pids@[j] < pid,
        decreases pids@.len() - i,
    {
        if pids[i] == pid {
            proof {
                assert(pids@[i as int] == pid);
                assert(pids@.contains(pid));
            }
            return;
        }
        if pids[i] > pid {
            let ghost olds: Seq<u32> = pids@;
            pids.insert(i, pid);
            proof {
                olds.insert_ensures(i as int, pid);
                assert forall|p: u32| pids@.contains(p) implies (olds.contains(p) || p
                    == pid) by {
                    let k = choose|k: int| 0 <= k < pids@.len() && pids@[k] == p;
                    if k < i {
                        assert(olds[k] == p);
                    } else if k > i {
                        assert(olds[k - 1] == p);
                    }
                }
                assert forall|p: u32| (olds.contains(p) || p == pid) implies pids@.contains(
                    p,
                ) by {
                    if p == pid {
                        assert(pids@[i as int] == p);
                    } else {
                        let k = choose|k: int| 0 <= k < olds.len() && olds[k] == p;
                        if k < i {
                            assert(pids@[k] == p);
                        } else {
                            assert(pids@[k + 1] == p);
                        }
                    }
                }
                assert forall|a: int, b: int| 0 <= a < b < pids@.len() implies pids@[a]
                    < pids@[b] by {
                    if b < i {
                        assert(pids@[a] == olds[a] && pids@[b] == olds[b]);
                    } else if b == i {
                        assert(pids@[a] == olds[a] && olds[a] < pid);
                    } else if a < i {
                        assert(pids@[a] == olds[a] && pids@[b] == olds[b - 1]);
                        assert(olds[b - 1] >= olds[i as int]);
                        assert(olds[a] < pid && pid < olds[i as int]);
                    } else if a == i {
                        assert(pids@[a] == pid && pids@[b] == olds[b - 1]);
                        assert(olds[b - 1] >= olds[i as int]);
                    } else {
                        assert(pids@[a] == olds[a - 1] && pids@[b] == olds[b - 1]);
                    }
                }
            }
            return;
        }
        i = i + 1;
    }
    let ghost olds: Seq<u32> = pids@;
    pids.push(pid);
    proof {
        assert forall|p: u32| pids@.contains(p) implies (olds.contains(p) || p == pid) by {
            let k = choose|k: int| 0 <= k < pids@.len() && pids@[k] == p;
            if k < olds.len() {
                assert(olds[k] == p);
            }
        }
        assert forall|p: u32| (olds.contains(p) || p == pid) implies pids@.contains(p) by {
            if p == pid {
                assert(pids@[pids@.len() - 1] == p);
            } else {
                let k = choose|k: int| 0 <= k < olds.len() && olds[k] == p;
                assert(pids@[k] == p);
            }
        }
    }
}

/// Collects the owning pids of all records, sorted ascending and without
/// duplicates.
pub fn collect_pids(recs: &Vec<PortInfo>) -> (pids: Vec<u32>)
    ensures
        strictly_sorted(pids@),
        forall|p: u32| pids@.contains(p) <==> owns_some_socket(recs@, p),
{
    let mut pids: Vec<u32> = Vec::new();
    let mut i: usize = 0;
    while i < recs.len()
        invariant
            i <= recs@.len(),
            strictly_sorted(pids@),
            forall|p: u32| pids@.contains(p) <==> owns_some_socket(
                recs@.subrange(0, i as int),
                p,
            ),
        decreases recs@.len() - i,
    {
        let r: &PortInfo = &recs[i];
        let ghost pre = recs@.subrange(0, i as int);
        let mut k: usize = 0;
        while k < r.pids.len()
            invariant
                k <= r.pids@.len(),
                0 <= i < recs@.len(),
                r == &recs@[i as int],
                pre == recs@.subrange(0, i as int),
                strictly_sorted(pids@),
                forall|p: u32| pids@.contains(p) <==> (owns_some_socket(pre, p)
                    || r.pids@.subrange(0, k as int).contains(p)),
            decreases r.pids@.len() - k,
        {
            let ghost oldpids = pids@;
            insert_pid(&mut pids, r.pids[k]);
            proof {
                let sub1 = r.pids@.subrange(0, k + 1);
                let sub0 = r.pids@.subrange(0, k as int);
                assert forall|p: u32| sub1.contains(p) implies (sub0.contains(p) || p
                    == r.pids@[k as int]) by {
                    let m = choose|m: int| 0 <= m < sub1.len() && sub1[m] == p;
                    if m < k {
                        assert(sub0[m] == p);
                    }
                }
                assert forall|p: u32| (sub0.contains(p) || p == r.pids@[k as int]) implies
                    sub1.contains(p) by {
                    if p == r.pids@[k as int] {
                        assert(sub1[k as int] == p);
                    } else {
                        let m = choose|m: int| 0 <= m < sub0.len() && sub0[m] == p;
                        assert(sub1[m] == p);
                    }
                }
                assert forall|p: u32| pids@.contains(p) implies (owns_some_socket(pre, p)
                    || sub1.contains(p)) by {
                    assert(oldpids.contains(p) || p == r.pids@[k as int]);
                }
                assert forall|p: u32| (owns_some_socket(pre, p) || sub1.contains(p)) implies
                    pids@.contains(p) by {
                    if owns_some_socket(pre, p) {
                        assert(oldpids.contains(p));
                    } else {
                        assert(sub0.contains(p) || p == r.pids@[k as int]);
                        if sub0.contains(p) {
                            assert(oldpids.contains(p));
                        }
                    }
                }
            }
            k = k + 1;
        }
        proof {
            let cur = recs@.subrange(0, i + 1);
            assert(cur.drop_last() =~= pre);
            assert(cur.last() == recs@[i as int]);
            assert(r.pids@.subrange(0, r.pids@.len() as int) =~= r.pids@);
            assert forall|p: u32| owns_some_socket(cur, p) implies (owns_some_socket(pre, p)
                || r.pids@.contains(p)) by {
                let m = choose|m: int|
                    0 <= m < cur.len() && (#[trigger] cur[m]).pids@.contains(p);
                if m < i {
                    assert(pre[m] == cur[m]);
                }
            }
            assert forall|p: u32| (owns_some_socket(pre, p) || r.pids@.contains(p)) implies
                owns_some_socket(cur, p) by {
                if owns_some_socket(pre, p) {
                    let m = choose|m: int|
                        0 <= m < pre.len() && (#[trigger] pre[m]).pids@.contains(p);
                    assert(cur[m] == pre[m]);
                } else {
                    assert(cur[i as int].pids@.contains(p));
                }
            }
            assert(forall|p: u32| pids@.contains(p) <==> (owns_some_socket(pre, p)
                || r.pids@.contains(p)));
            assert(forall|p: u32| pids@.contains(p) <==> owns_some_socket(cur, p));
        }
        i = i + 1;
    }
    proof {
        assert(recs@.subrange(0, recs@.len() as int) =~= recs@);
    }
    pids
}

/// The node has some entry in the listening state.
pub open spec fn node_is_listening(n: ProcessNode) -> bool {
    exists|i: int| 0 <= i < n.ports@.len() && (#[trigger] n.ports@[i]).state is Listening
}

/// How many nodes have some listening entry.
pub open spec fn count_listening(ns: Seq<ProcessNode>) -> int
    decreases ns.len(),
{
    if ns.len() == 0 {
        0
    } else {
        count_listening(ns.drop_last()) + if node_is_listening(ns.last()) {
            1int
        } else {
            0int
        }
    }
}

/// Whether the port list holds a listening entry.
fn has_listening(es: &Vec<PortEntry>) -> (r: bool)
    ensures
        r == (exists|i: int| 0 <= i < es@.len() && (#[trigger] es@[i]).state is Listening),
{
    let mut i: usize = 0;
    while i < es.len()
        invariant
            i <= es@.len(),
            forall|j: int| 0 <= j < i ==> !((#[trigger] es@[j]).state is Listening),
        decreases es@.len() - i,
    {
        if matches!(es[i].state, crate::models::SocketState::Listening) {
            return true;
        }
        i = i + 1;
    }
    false
}

/// Some node of the list carries `pid`.
pub open spec fn has_node(ns: Seq<ProcessNode>, pid: u32) -> bool {
    exists|j: int| 0 <= j < ns.len() && (#[trigger] ns[j]).pid == pid
}

/// Everything the engine guarantees of a query-all answer: availability
/// and counters are faithful, the nodes are strictly ordered by pid, each
/// node meets `node_ok` with a non-empty port list, and the emitted pids
/// are exactly the owning pids of the records.
pub open spec fn correlation_ok(
    st: AppState,
    sockets: Seq<PortInfo>,
    procs: Seq<ProcessInfo>,
    index: ContainerPortIndex,
    reg: SafetyRegistry,
) -> bool {
    &&& st.docker_available == index.available
    &&& st.total_connections == sockets.len()
    &&& forall|a: int, b: int|
        0 <= a < b < st.processes@.len() ==> (#[trigger] st.processes@[a]).pid < (
        #[trigger] st.processes@[b]).pid
    &&& forall|j: int|
        0 <= j < st.processes@.len() ==> node_ok(#[trigger] st.processes@[j], sockets, procs,
            index, reg)
    &&& forall|j: int| 0 <= j < st.processes@.len() ==> (#[trigger] st.processes@[j]).ports@.len()
        > 0
    &&& forall|p: u32| has_node(st.processes@, p) <==> owns_some_socket(sockets, p)
    &&& st.listening_ports == count_listening(st.processes@)
}

/// Builds the full unified view: one node per owning pid, sorted by pid
/// ascending, with deduplicated ports, resolved or sentinel metadata,
/// container attachment, safety flags and aggregate counters.
pub fn correlate(
    sockets: &Vec<PortInfo>,
    procs: &Vec<ProcessInfo>,
    index: &ContainerPortIndex,
    reg: &SafetyRegistry,
    now: i64,
) -> (st: AppState)
    ensures
        correlation_ok(st, sockets@, procs@, *index, *reg),
        st.last_updated == now,
{
    let pids: Vec<u32> = collect_pids(sockets);
    let mut nodes: Vec<ProcessNode> = Vec::new();
    let mut listening: usize = 0;
    let mut i: usize = 0;
    while i < pids.len()
        invariant
            i <= pids@.len(),
            strictly_sorted(pids@),
            forall|p: u32| pids@.contains(p) <==> owns_some_socket(sockets@, p),
            nodes@.len() == i,
            forall|j: int| 0 <= j < i ==> (#[trigger] nodes@[j]).pid == pids@[j],
            forall|j: int| 0 <= j < i ==> node_ok(
                #[trigger] nodes@[j],
                sockets@,
                procs@,
                *index,
                *reg,
            ),
            forall|j: int| 0 <= j < i ==> (#[trigger] nodes@[j]).ports@.len() > 0,
            listening <= i,
            listening == count_listening(nodes@),
        decreases pids@.len() - i,
    {
        let pid: u32 = pids[i];
        proof {
            assert(pids@[i as int] == pid);
            assert(pids@.contains(pid));
            lemma_dedup_nonempty(sockets@, pid);
        }
        let ports: Vec<PortEntry> = dedup_ports_exec(sockets, pid);
        let node: ProcessNode = build_node(pid, ports, procs, index, reg);
        let ghost oldnodes = nodes@;
        let is_listening: bool = has_listening(&node.ports);
        if is_listening {
            listening = listening + 1;
        }
        nodes.push(node);
        proof {
            assert(nodes@.drop_last() =~= oldnodes);
            assert(nodes@.last() == node);
        }
        i = i + 1;
    }
    proof {
        assert forall|p: u32| has_node(nodes@, p) implies owns_some_socket(sockets@, p) by {
            let j = choose|j: int| 0 <= j < nodes@.len() && (#[trigger] nodes@[j]).pid == p;
            assert(pids@[j] == p);
            assert(pids@.contains(p));
        }
        assert forall|p: u32| owns_some_socket(sockets@, p) implies has_node(nodes@, p) by {
            assert(pids@.contains(p));
            let j = choose|j: int| 0 <= j < pids@.len() && pids@[j] == p;
            assert(nodes@[j].pid == p);
        }
    }
    AppState {
        processes: nodes,
        total_connections: sockets.len(),
        listening_ports: listening,
        docker_available: index.is_available(),
        last_updated: now,
    }
}

/// The records that survive a scan: those with at least one owning pid.
pub open spec fn kept_records(recs: Seq<PortInfo>) -> Seq<PortInfo>
    decreases recs.len(),
{
    if recs.len() == 0 {
        Seq::empty()
    } else {
        let pre = kept_records(recs.drop_last());
        if recs.last().pids@.len() > 0 {
            pre.push(recs.last())
        } else {
            pre
        }
    }
}

/// The records in the listening state, in order.
pub open spec fn listening_records(recs: Seq<PortInfo>) -> Seq<PortInfo>
    decreases recs.len(),
{
    if recs.len() == 0 {
        Seq::empty()
    } else {
        let pre = listening_records(recs.drop_last());
        if recs.last().state is Listening {
            pre.push(recs.last())
        } else {
            pre
        }
    }
}

/// The records on one local port, in order.
pub open spec fn records_on_port(recs: Seq<PortInfo>, port: u16) -> Seq<PortInfo>
    decreases recs.len(),
{
    if recs.len() == 0 {
        Seq::empty()
    } else {
        let pre = records_on_port(recs.drop_last(), port);
        if recs.last().local_port == port {
            pre.push(recs.last())
        } else {
            pre
        }
    }
}

/// Stable insertion into a port-ordered list: the record goes after every
/// record with a lower or equal port.
pub open spec fn insert_by_port(s: Seq<PortInfo>, r: PortInfo) -> Seq<PortInfo>
    decreases s.len(),
{
    if s.len() == 0 {
        seq![r]
    } else if s.last().local_port <= r.local_port {
        s.push(r)
    } else {
        insert_by_port(s.drop_last(), r).push(s.last())
    }
}

/// Stable sort by local port.
pub open spec fn sort_by_port(s: Seq<PortInfo>) -> Seq<PortInfo>
    decreases s.len(),
{
    if s.len() == 0 {
        Seq::empty()
    } else {
        insert_by_port(sort_by_port(s.drop_last()), s.last())
    }
}

/// The list is ordered by local port.
pub open spec fn ports_sorted(s: Seq<PortInfo>) -> bool {
    forall|i: int, j: int|
        0 <= i < j < s.len() ==> (#[trigger] s[i]).local_port <= (#[trigger] s[j]).local_port
}

/// Law: stable insertion preserves port order.
pub proof fn lemma_insert_by_port_sorted(s: Seq<PortInfo>, r: PortInfo)
    requires
        ports_sorted(s),
    ensures
        ports_sorted(insert_by_port(s, r)),
        insert_by_port(s, r).len() == s.len() + 1,
    decreases s.len(),
{
    if s.len() > 0 && !(s.last().local_port <= r.local_port) {
        lemma_insert_by_port_sorted(s.drop_last(), r);
        let pre = insert_by_port(s.drop_last(), r);
        let out = pre.push(s.last());
        assert forall|i: int, j: int| 0 <= i < j < out.len() implies (#[trigger] out[i]).local_port
            <= (#[trigger] out[j]).local_port by {
            if j < out.len() - 1 {
                assert(out[i] == pre[i] && out[j] == pre[j]);
            } else {
                assert(out[j] == s.last());
                if i < out.len() - 1 {
                    assert(out[i] == pre[i]);
                    lemma_insert_by_port_members(s.drop_last(), r, i);
                }
            }
        }
    }
}

/// Every element of a stable insertion is the inserted record or an
/// element of the original list.
proof fn lemma_insert_by_port_members(s: Seq<PortInfo>, r: PortInfo, i: int)
    requires
        0 <= i < insert_by_port(s, r).len(),
    ensures
        insert_by_port(s, r)[i] == r || exists|k: int|
            0 <= k < s.len() && insert_by_port(s, r)[i] == s[k],
    decreases s.len(),
{
    if s.len() == 0 {
    } else if s.last().local_port <= r.local_port {
        if i < s.len() {
            assert(insert_by_port(s, r)[i] == s[i]);
        }
    } else {
        let pre = insert_by_port(s.drop_last(), r);
        if i < pre.len() {
            lemma_insert_by_port_members(s.drop_last(), r, i);
            if pre[i] != r {
                let k = choose|k: int| 0 <= k < s.drop_last().len() && pre[i] == s.drop_last()[k];
                assert(s.drop_last()[k] == s[k]);
            }
        } else {
            assert(insert_by_port(s, r)[i] == s[s.len() - 1]);
        }
    }
}

/// Law: the stable sort is ordered by local port.
pub proof fn lemma_sort_by_port_sorted(s: Seq<PortInfo>)
    ensures
        ports_sorted(sort_by_port(s)),
        sort_by_port(s).len() == s.len(),
    decreases s.len(),
{
    if s.len() > 0 {
        lemma_sort_by_port_sorted(s.drop_last());
        lemma_insert_by_port_sorted(sort_by_port(s.drop_last()), s.last());
    }
}

/// Inserts a record into a port-ordered vector at its stable position.
fn insert_by_port_exec(out: &mut Vec<PortInfo>, r: PortInfo)
    ensures
        final(out)@ == insert_by_port(old(out)@, r),
{
    let ghost orig: Seq<PortInfo> = out@;
    let mut pos: usize = out.len();
    proof {
        assert(out@.subrange(pos as int, out@.len() as int).len() == 0);
        assert(insert_by_port(out@, r) =~= insert_by_port(out@.subrange(0, pos as int), r)
            + out@.subrange(pos as int, out@.len() as int)) by {
            assert(out@.subrange(0, pos as int) =~= out@);
        }
    }
    while pos > 0 && out[pos - 1].local_port > r.local_port
        invariant
            pos <= out@.len(),
            out@ == orig,
            insert_by_port(out@, r) == insert_by_port(out@.subrange(0, pos as int), r)
                + out@.subrange(pos as int, out@.len() as int),
        decreases pos,
    {
        let ghost sub = out@.subrange(0, pos as int);
        proof {
            assert(sub.last() == out@[pos - 1]);
            assert(sub.drop_last() =~= out@.subrange(0, pos - 1));
            assert(insert_by_port(sub, r) == insert_by_port(out@.subrange(0, pos - 1), r).push(
                out@[pos - 1],
            ));
            assert(insert_by_port(out@.subrange(0, pos - 1), r).push(out@[pos - 1])
                + out@.subrange(pos as int, out@.len() as int) =~= insert_by_port(
                out@.subrange(0, pos - 1),
                r,
            ) + out@.subrange(pos - 1, out@.len() as int));
        }
        pos = pos - 1;
    }
    let ghost sub = out@.subrange(0, pos as int);
    proof {
        if pos > 0 {
            assert(sub.last() == out@[pos - 1]);
            assert(insert_by_port(sub, r) == sub.push(r));
        } else {
            assert(insert_by_port(sub, r) =~= seq![r]);
            assert(insert_by_port(sub, r) == sub.push(r)) by {
                assert(sub.push(r) =~= seq![r]);
            }
        }
    }
    out.insert(pos, r);
    proof {
        orig.insert_ensures(pos as int, r);
        assert(out@ =~= sub.push(r) + orig.subrange(pos as int, orig.len() as int));
    }
}

/// Orders and filters a raw socket snapshot: records without an owning
/// process are dropped, the rest are ordered by local port (stable).
pub fn scan_ports(records: Vec<PortInfo>) -> (r: Vec<PortInfo>)
    ensures
        r@ == sort_by_port(kept_records(records@)),
        ports_sorted(r@),
{
    let ghost orig: Seq<PortInfo> = records@;
    let mut input: Vec<PortInfo> = records;
    let mut fv: Vec<PortInfo> = Vec::new();
    proof {
        assert(orig.subrange(0, 0).len() == 0);
        assert(orig.subrange(0, orig.len() as int) =~= orig);
    }
    while input.len() > 0
        invariant
            input@.len() <= orig.len(),
            input@ == orig.subrange(orig.len() - input@.len(), orig.len() as int),
            fv@ == kept_records(orig.subrange(0, orig.len() - input@.len())),
        decreases input@.len(),
    {
        let ghost done: int = orig.len() - input@.len();
        let r: PortInfo = input.remove(0);
        proof {
            assert(r == orig[done]);
            assert(input@ =~= orig.subrange(done + 1, orig.len() as int));
            assert(orig.subrange(0, done + 1).drop_last() =~= orig.subrange(0, done));
            assert(orig.subrange(0, done + 1).last() == orig[done]);
        }
        if r.pids.len() > 0 {
            fv.push(r);
        }
    }
    proof {
        assert(orig.subrange(0, orig.len() as int) =~= orig);
    }
    let ghost fseq: Seq<PortInfo> = fv@;
    let mut input2: Vec<PortInfo> = fv;
    let mut out: Vec<PortInfo> = Vec::new();
    proof {
        assert(fseq.subrange(0, 0).len() == 0);
    }
    while input2.len() > 0
        invariant
            input2@.len() <= fseq.len(),
            input2@ == fseq.subrange(fseq.len() - input2@.len(), fseq.len() as int),
            out@ == sort_by_port(fseq.subrange(0, fseq.len() - input2@.len())),
        decreases input2@.len(),
    {
        let ghost done: int = fseq.len() - input2@.len();
        let r: PortInfo = input2.remove(0);
        proof {
            assert(r == fseq[done]);
            assert(input2@ =~= fseq.subrange(done + 1, fseq.len() as int));
            assert(fseq.subrange(0, done + 1).drop_last() =~= fseq.subrange(0, done));
            assert(fseq.subrange(0, done + 1).last() == fseq[done]);
        }
        insert_by_port_exec(&mut out, r);
    }
    proof {
        assert(fseq.subrange(0, fseq.len() as int) =~= fseq);
        lemma_sort_by_port_sorted(fseq);
    }
    out
}

/// Orders and filters a raw socket snapshot, then keeps only the
/// listening records.
pub fn scan_listening_ports(records: Vec<PortInfo>) -> (r: Vec<PortInfo>)
    ensures
        r@ == listening_records(sort_by_port(kept_records(records@))),
{
    let sorted: Vec<PortInfo> = scan_ports(records);
    let ghost sseq: Seq<PortInfo> = sorted@;
    let mut input: Vec<PortInfo> = sorted;
    let mut out: Vec<PortInfo> = Vec::new();
    proof {
        assert(sseq.subrange(0, 0).len() == 0);
    }
    while input.len() > 0
        invariant
            input@.len() <= sseq.len(),
            input@ == sseq.subrange(sseq.len() - input@.len(), sseq.len() as int),
            out@ == listening_records(sseq.subrange(0, sseq.len() - input@.len())),
        decreases input@.len(),
    {
        let ghost done: int = sseq.len() - input@.len();
        let r: PortInfo = input.remove(0);
        proof {
            assert(r == sseq[done]);
            assert(input@ =~= sseq.subrange(done + 1, sseq.len() as int));
            assert(sseq.subrange(0, done + 1).drop_last() =~= sseq.subrange(0, done));
            assert(sseq.subrange(0, done + 1).last() == sseq[done]);
        }
        if matches!(r.state, crate::models::SocketState::Listening) {
            out.push(r);
        }
    }
    proof {
        assert(sseq.subrange(0, sseq.len() as int) =~= sseq);
    }
    out
}

/// Orders and filters a raw socket snapshot, then keeps only the records
/// on one local port.
pub fn find_port_users(records: Vec<PortInfo>, port: u16) -> (r: Vec<PortInfo>)
    ensures
        r@ == records_on_port(sort_by_port(kept_records(records@)), port),
{
    let sorted: Vec<PortInfo> = scan_ports(records);
    let ghost sseq: Seq<PortInfo> = sorted@;
    let mut input: Vec<PortInfo> = sorted;
    let mut out: Vec<PortInfo> = Vec::new();
    proof {
        assert(sseq.subrange(0, 0).len() == 0);
    }
    while input.len() > 0
        invariant
            input@.len() <= sseq.len(),
            input@ == sseq.subrange(sseq.len() - input@.len(), sseq.len() as int),
            out@ == records_on_port(sseq.subrange(0, sseq.len() - input@.len()), port),
        decreases input@.len(),
    {
        let ghost done: int = sseq.len() - input@.len();
        let r: PortInfo = input.remove(0);
        proof {
            assert(r == sseq[done]);
            assert(input@ =~= sseq.subrange(done + 1, sseq.len() as int));
            assert(sseq.subrange(0, done + 1).drop_last() =~= sseq.subrange(0, done));
            assert(sseq.subrange(0, done + 1).last() == sseq[done]);
        }
        if r.local_port == port {
            out.push(r);
        }
    }
    proof {
        assert(sseq.subrange(0, sseq.len() as int) =~= sseq);
    }
    out
}

/// The (record, owning pid) pairs of a record list, record-major, pids in
/// record order.
pub open spec fn port_pairs(recs: Seq<PortInfo>) -> Seq<(PortInfo, u32)>
    decreases recs.len(),
{
    if recs.len() == 0 {
        Seq::empty()
    } else {
        port_pairs(recs.drop_last()) + recs.last().pids@.map_values(|p: u32| (recs.last(), p))
    }
}

/// Everything the engine guarantees of one node of a by-port query: it
/// stands for one (record, owning pid) pair, with that single record as
/// its only port entry and the same resolution as the full query.
pub open spec fn pair_node_ok(
    n: ProcessNode,
    rec: PortInfo,
    pid: u32,
    procs: Seq<ProcessInfo>,
    index: ContainerPortIndex,
    reg: SafetyRegistry,
) -> bool {
    &&& n.pid == pid
    &&& n.ports@ == seq![entry_of(rec)]
    &&& meta_matches(n, find_proc(procs, pid))
    &&& n.is_docker_proxy == proxy_name_spec(resolved_name(procs, pid))
    &&& container_ok(n, index)
    &&& n.is_protected == !safe_verdict(reg, pid, resolved_name(procs, pid))
    &&& n.id@ == node_id_spec(pid, rec.local_port)
}

/// Builds one node per (record, owning pid) pair of a single-port query;
/// a single-port query has nothing to deduplicate across records.
pub fn find_port_nodes(
    matching: &Vec<PortInfo>,
    procs: &Vec<ProcessInfo>,
    index: &ContainerPortIndex,
    reg: &SafetyRegistry,
) -> (nodes: Vec<ProcessNode>)
    ensures
        nodes@.len() == port_pairs(matching@).len(),
        forall|k: int|
            0 <= k < nodes@.len() ==> pair_node_ok(
                #[trigger] nodes@[k],
                port_pairs(matching@)[k].0,
                port_pairs(matching@)[k].1,
                procs@,
                *index,
                *reg,
            ),
{
    let mut nodes: Vec<ProcessNode> = Vec::new();
    proof {
        assert(matching@.subrange(0, 0).len() == 0);
    }
    let mut i: usize = 0;
    while i < matching.len()
        invariant
            i <= matching@.len(),
            nodes@.len() == port_pairs(matching@.subrange(0, i as int)).len(),
            forall|k: int|
                0 <= k < nodes@.len() ==> pair_node_ok(
                    #[trigger] nodes@[k],
                    port_pairs(matching@.subrange(0, i as int))[k].0,
                    port_pairs(matching@.subrange(0, i as int))[k].1,
                    procs@,
                    *index,
                    *reg,
                ),
        decreases matching@.len() - i,
    {
        let ghost pairs_pre = port_pairs(matching@.subrange(0, i as int));
        let rec: &PortInfo = &matching[i];
        let mut k: usize = 0;
        while k < rec.pids.len()
            invariant
                k <= rec.pids@.len(),
                0 <= i < matching@.len(),
                rec == &matching@[i as int],
                pairs_pre == port_pairs(matching@.subrange(0, i as int)),
                nodes@.len() == pairs_pre.len() + k,
                forall|m: int|
                    0 <= m < pairs_pre.len() ==> pair_node_ok(
                        #[trigger] nodes@[m],
                        pairs_pre[m].0,
                        pairs_pre[m].1,
                        procs@,
                        *index,
                        *reg,
                    ),
                forall|m: int|
                    pairs_pre.len() <= m < nodes@.len() ==> pair_node_ok(
                        #[trigger] nodes@[m],
                        *rec,
                        rec.pids@[m - pairs_pre.len()],
                        procs@,
                        *index,
                        *reg,
                    ),
            decreases rec.pids@.len() - k,
        {
            let pid: u32 = rec.pids[k];
            let mut ports: Vec<PortEntry> = Vec::new();
            ports.push(entry_from_record(rec));
            proof {
                assert(ports@ =~= seq![entry_of(*rec)]);
            }
            let node: ProcessNode = build_node(pid, ports, procs, index, reg);
            nodes.push(node);
            k = k + 1;
        }
        proof {
            let cur = matching@.subrange(0, i + 1);
            assert(cur.drop_last() =~= matching@.subrange(0, i as int));
            assert(cur.last() == matching@[i as int]);
            let tail = cur.last().pids@.map_values(|p: u32| (cur.last(), p));
            assert(port_pairs(cur) == pairs_pre + tail);
            assert(nodes@.len() == port_pairs(cur).len());
            assert forall|m: int| 0 <= m < nodes@.len() implies pair_node_ok(
                #[trigger] nodes@[m],
                port_pairs(cur)[m].0,
                port_pairs(cur)[m].1,
                procs@,
                *index,
                *reg,
            ) by {
                if m < pairs_pre.len() {
                    assert(port_pairs(cur)[m] == pairs_pre[m]);
                } else {
                    assert(port_pairs(cur)[m] == tail[m - pairs_pre.len()]);
                    assert(tail[m - pairs_pre.len()] == (cur.last(), cur.last().pids@[m
                        - pairs_pre.len()]));
                }
            }
        }
        i = i + 1;
    }
    proof {
        assert(matching@.subrange(0, matching@.len() as int) =~= matching@);
    }
    nodes
}

/// Relies on std's `SystemTime::now`, read as whole seconds since the
/// Unix epoch through `duration_since`.  The body is total: a clock set
/// before the epoch reports 0 and a reading beyond the representable
/// range saturates, so the call never aborts.  Nothing is assumed of the
/// value: the clock is outside the library, and every correlation
/// guarantee holds whatever it returns.
#[verifier::external_body]
fn current_timestamp() -> i64 {
    match std::time::SystemTime::now().duration_since(std::time::UNIX_EPOCH) {
        Ok(since_epoch) => i64::try_from(since_epoch.as_secs()).unwrap_or(i64::MAX),
        Err(_) => 0,
    }
}

/// Builds the full unified view stamped with the current time.
pub fn correlate_now(
    sockets: &Vec<PortInfo>,
    procs: &Vec<ProcessInfo>,
    index: &ContainerPortIndex,
    reg: &SafetyRegistry,
) -> (st: AppState)
    ensures
        correlation_ok(st, sockets@, procs@, *index, *reg),
{
    let now: i64 = current_timestamp();
    correlate(sockets, procs, index, reg, now)
}

} // verus!
