//! The slot that holds the host of a process.

use vstd::prelude::*;

verus! {

/// A slot that takes one host and keeps it.
#[derive(Debug)]
pub struct HostSlot<Host> {
    host: Option<Host>,
}

impl<Host> HostSlot<Host> {
    /// The installed host, if any.
    pub closed spec fn installed(&self) -> Option<Host> {
        self.host
    }

    /// A slot without a host.
    pub fn new() -> (slot: Self)
        ensures
            slot.installed() is None,
    {
        HostSlot { host: None }
    }
}

/// Installs the host. Only the first call wins: every later one leaves the slot
/// as it is and hands its host back.
pub fn install<Host>(slot: &mut HostSlot<Host>, host: Host) -> (installed: Result<(), Host>)
    ensures
        was_installed(*old(slot), *final(slot), host, installed),
        old(slot).installed() is None ==> installed is Ok && final(slot).installed() == Some(host),
        old(slot).installed() is Some ==> installed == Err::<(), Host>(host)
            && final(slot).installed() == old(slot).installed(),
{
    if slot.host.is_some() {
        Err(host)
    } else {
        slot.host = Some(host);
        Ok(())
    }
}

/// The installed host, if any.
pub fn host<Host>(slot: &HostSlot<Host>) -> (host: Option<&Host>)
    ensures
        match host {
            Some(host) => slot.installed() == Some(*host),
            None => slot.installed() is None,
        },
{
    slot.host.as_ref()
}

/// What installing a host does.
pub open spec fn was_installed<Host>(
    before: HostSlot<Host>,
    after: HostSlot<Host>,
    host: Host,
    installed: Result<(), Host>,
) -> bool {
    if before.installed() is None {
        after.installed() == Some(host) && installed is Ok
    } else {
        after.installed() == before.installed() && installed == Err::<(), Host>(host)
    }
}

/// Only the first host is installed, for good: however many more are tried, the slot keeps the
/// first, and each of the others is handed back.
pub proof fn law_the_first_host_stays<Host>(
    slots: Seq<HostSlot<Host>>,
    hosts: Seq<Host>,
    results: Seq<Result<(), Host>>,
)
    requires
        hosts.len() > 0,
        slots.len() == hosts.len() + 1,
        results.len() == hosts.len(),
        slots[0].installed() is None,
        forall|i: int|
            0 <= i < hosts.len() ==> was_installed(
                slots[i],
                slots[i + 1],
                #[trigger] hosts[i],
                results[i],
            ),
    ensures
        results[0] is Ok,
        forall|i: int|
            0 < i < slots.len() ==> (#[trigger] slots[i]).installed() == Some(hosts[0]),
        forall|i: int|
            0 < i < hosts.len() ==> #[trigger] results[i] == Err::<(), Host>(hosts[i]),
    decreases hosts.len(),
{
    let n = hosts.len() - 1;
    assert(was_installed(slots[n], slots[n + 1], hosts[n], results[n]));
    if n > 0 {
        let fewer_slots = slots.drop_last();
        let fewer_hosts = hosts.drop_last();
        let fewer_results = results.drop_last();
        assert forall|i: int| 0 <= i < fewer_hosts.len() implies was_installed(
            fewer_slots[i],
            fewer_slots[i + 1],
            #[trigger] fewer_hosts[i],
            fewer_results[i],
        ) by {
            assert(hosts[i] == fewer_hosts[i]);
        }
        law_the_first_host_stays(fewer_slots, fewer_hosts, fewer_results);
        assert(fewer_slots[n].installed() == Some(hosts[0]));
        assert forall|i: int| 0 < i < slots.len() implies (#[trigger] slots[i]).installed()
            == Some(hosts[0]) by {
            if i <= n {
                assert(fewer_slots[i] == slots[i]);
            }
        }
        assert forall|i: int| 0 < i < hosts.len() implies #[trigger] results[i] == Err::<(), Host>(
            hosts[i],
        ) by {
            if i < n {
                assert(fewer_results[i] == results[i]);
            }
        }
    }
}

} // verus!
