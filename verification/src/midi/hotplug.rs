//! Hot-plug of the controller by polling (the MIDI backend does not notify
//! unplugging): every scan compares the visible input ports with the
//! current connection. A vanished port is dropped; without a connection,
//! the first port matching the mapping is connected. The application never
//! crashes on an unplug: connections are closed and retried at the next
//! scan.

use vstd::prelude::*;

use crate::mapping::{contains_text, Mapping};

verus! {

/// Ports are scanned every this many feedback ticks (~1.5 s at ~30 Hz).
pub const SCAN_EVERY_TICKS: u32 = 45;

/// Whether tick `tick` is a scan tick.
pub fn scan_due(tick: u32) -> (r: bool)
    ensures
        r == (tick % SCAN_EVERY_TICKS == 0),
{
    tick % SCAN_EVERY_TICKS == 0
}

/// What one scan asks for.
#[derive(Debug, Clone, Copy, PartialEq, Eq, Structural)]
pub struct ScanPlan {
    /// The connected port vanished: drop the input and output connections
    /// and report the disconnection.
    pub disconnect: bool,
    /// Port to connect to (index into the scanned list), when there is no
    /// connection left and one port belongs to the controller.
    pub connect_to: Option<usize>,
}

/// The port called `name` belongs to the controller of `mapping`.
pub open spec fn port_matches<F>(mapping: Mapping<F>, name: Seq<char>) -> bool {
    exists|i: int|
        0 <= i < mapping.device_match@.len() && contains_text(name, #[trigger] mapping.device_match@[i]@)
}

/// First port below `k` belonging to the controller.
pub open spec fn first_matching_port<F>(mapping: Mapping<F>, ports: Seq<String>, k: int) -> Option<int>
    decreases k,
{
    if k <= 0 {
        None
    } else {
        match first_matching_port(mapping, ports, k - 1) {
            Some(i) => Some(i),
            None => if port_matches(mapping, ports[k - 1]@) {
                Some(k - 1)
            } else {
                None
            },
        }
    }
}

/// The current connection is gone from the scanned ports.
pub open spec fn vanished(connected: Option<Seq<char>>, ports: Seq<String>) -> bool {
    match connected {
        Some(name) => forall|i: int| 0 <= i < ports.len() ==> (#[trigger] ports[i])@ != name,
        None => false,
    }
}

/// Decides one scan from the current connection (port name) and the
/// visible input ports.
pub fn plan_scan<F>(connected: Option<&String>, ports: &[String], mapping: &Mapping<F>) -> (r: ScanPlan)
    ensures
        ({
            let current = match connected {
                Some(name) => Some(name@),
                None => None::<Seq<char>>,
            };
            &&& r.disconnect == vanished(current, ports@)
            &&& r.connect_to == (if connected is None || r.disconnect {
                match first_matching_port(*mapping, ports@, ports@.len() as int) {
                    Some(i) => Some(i as usize),
                    None => None,
                }
            } else {
                None
            })
        }),
        r.disconnect == (connected matches Some(name) && forall|i: int|
            0 <= i < ports@.len() ==> (#[trigger] ports@[i])@ != name@),
        (connected matches Some(name) && exists|i: int|
            0 <= i < ports@.len() && (#[trigger] ports@[i])@ == name@) ==> !r.disconnect && r.connect_to is None,
        r.connect_to matches Some(k) ==> {
            &&& k < ports@.len()
            &&& port_matches(*mapping, ports@[k as int]@)
            &&& forall|j: int| 0 <= j < k ==> !port_matches(*mapping, #[trigger] ports@[j]@)
        },
        (connected is None || r.disconnect) && r.connect_to is None ==> forall|j: int|
            0 <= j < ports@.len() ==> !port_matches(*mapping, #[trigger] ports@[j]@),
{
    proof {
        lemma_first_matching_port(*mapping, ports@, ports@.len() as int);
    }
    let n = ports.len();
    let mut disconnect = false;
    if let Some(name) = connected {
        let mut present = false;
        let mut i: usize = 0;
        while i < n
            invariant
                n == ports@.len(),
                i <= n,
                present <==> exists|k: int| 0 <= k < i && (#[trigger] ports@[k])@ == name@,
            decreases n - i,
        {
            if ports[i] == *name {
                present = true;
            }
            i += 1;
        }
        disconnect = !present;
    }
    let mut connect_to: Option<usize> = None;
    if connected.is_none() || disconnect {
        let mut i: usize = 0;
        while i < n && connect_to.is_none()
            invariant
                n == ports@.len(),
                i <= n,
                match connect_to {
                    Some(k) => first_matching_port(*mapping, ports@, n as int) == Some(k as int),
                    None => first_matching_port(*mapping, ports@, i as int) is None,
                },
            decreases n - i,
        {
            if mapping.matches_port(ports[i].as_str()) {
                proof {
                    assert(first_matching_port(*mapping, ports@, i + 1) == Some(i as int));
                    lemma_first_matching_port_stable(*mapping, ports@, i + 1, n as int);
                }
                connect_to = Some(i);
            }
            i += 1;
        }
    }
    ScanPlan { disconnect, connect_to }
}

proof fn lemma_first_matching_port_stable<F>(mapping: Mapping<F>, ports: Seq<String>, m: int, n: int)
    requires
        m <= n,
        first_matching_port(mapping, ports, m) is Some,
    ensures
        first_matching_port(mapping, ports, n) == first_matching_port(mapping, ports, m),
    decreases n - m,
{
    if n > m {
        lemma_first_matching_port_stable(mapping, ports, m, n - 1);
    }
}

/// The port a scan connects to belongs to the controller, and no earlier
/// port does; when none is chosen, no scanned port belongs to it.
pub proof fn lemma_first_matching_port<F>(mapping: Mapping<F>, ports: Seq<String>, k: int)
    requires
        0 <= k <= ports.len(),
    ensures
        first_matching_port(mapping, ports, k) matches Some(i) ==> 0 <= i < k && port_matches(mapping, ports[i]@)
            && forall|j: int| 0 <= j < i ==> !port_matches(mapping, ports[j]@),
        first_matching_port(mapping, ports, k) is None ==> forall|j: int| 0 <= j < k ==> !port_matches(mapping, ports[j]@),
    decreases k,
{
    if k > 0 {
        lemma_first_matching_port(mapping, ports, k - 1);
    }
}

/// A connection is dropped exactly when its port is missing from the scan:
/// a port name that appears in the scanned list, wherever it stands, never
/// counts as vanished, one missing from every entry always does, and with
/// no connection nothing vanishes.
pub proof fn lemma_vanished_iff_absent(name: Seq<char>, ports: Seq<String>)
    ensures
        vanished(Some(name), ports) <==> !exists|k: int| 0 <= k < ports.len() && (#[trigger] ports[k])@ == name,
        !vanished(None, ports),
{
}

/// A controller that is still plugged in is kept: after connecting to the
/// port at index `k` of a scan, a later scan that still lists that port
/// (at any index) neither drops nor reconnects it.
pub proof fn lemma_plugged_port_kept(ports: Seq<String>, later: Seq<String>, k: int, j: int)
    requires
        0 <= k < ports.len(),
        0 <= j < later.len(),
        later[j]@ == ports[k]@,
    ensures
        !vanished(Some(ports[k]@), later),
{
}

} // verus!
