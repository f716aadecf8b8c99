//! What the engine takes from the backend's side of provisioning: fresh
//! network names, and the address a service was assigned according to its
//! inspected metadata.

use vstd::prelude::*;

verus! {

/// A failed backend interaction, reported with the operation's message.
#[derive(Debug)]
pub struct BackendError {
    pub message: String,
}

impl BackendError {
    pub fn new(message: String) -> (e: Self)
        ensures
            e.message == message,
    {
        BackendError { message }
    }
}

/// Relies on uuid::Uuid::new_v4 and the hyphenated rendering of its
/// `Display` impl: a fresh random version-4 UUID always prints as exactly
/// 36 characters. Nothing is assumed about which characters come out.
#[verifier::external_body]
pub(crate) fn fresh_network_name() -> (name: String)
    ensures
        name@.len() == 36,
{
    uuid::Uuid::new_v4().to_string()
}

/// What a service's inspected metadata says about one network it is
/// attached to: the network's name and the address assigned on it, if any.
#[derive(Debug)]
pub struct NetworkAttachment {
    pub network: String,
    pub ip_address: Option<String>,
}

/// The slice of a backend container-inspect response that address lookup
/// reads: the per-network attachment list, or None where the response
/// carried no network settings at all.
#[derive(Debug)]
pub struct InspectReport {
    pub networks: Option<Vec<NetworkAttachment>>,
}

/// Whether some attachment in the list names `network`.
pub open spec fn has_attachment(atts: Seq<NetworkAttachment>, network: Seq<char>) -> bool {
    exists|i: int| 0 <= i < atts.len() && (#[trigger] atts[i]).network@ == network
}

/// The position of the earliest attachment naming `network`.
pub open spec fn first_attachment(atts: Seq<NetworkAttachment>, network: Seq<char>) -> int {
    choose|i: int|
        0 <= i < atts.len() && (#[trigger] atts[i]).network@ == network && (forall|j: int|
            0 <= j < i ==> atts[j].network@ != network)
}

/// Whether the report carries an address for `network`: network settings
/// are present, some attachment names that network, and the earliest such
/// attachment holds an assigned address.
pub open spec fn has_address_on(report: InspectReport, network: Seq<char>) -> bool {
    match report.networks {
        Some(atts) => has_attachment(atts@, network) && atts@[first_attachment(
            atts@,
            network,
        )].ip_address is Some,
        None => false,
    }
}

/// Extract the address a service was assigned on `network` from its
/// inspected metadata: the address of the earliest attachment naming that
/// network. Absent or incomplete network metadata is an unexpected-state
/// condition and comes back as a BackendError carrying
/// "invalid service network config".
pub fn service_address(report: &InspectReport, network: &str) -> (r: Result<String, BackendError>)
    ensures
        has_address_on(*report, network@) ==> (r matches Ok(ip) && (report.networks matches Some(
            atts,
        ) && atts@[first_attachment(atts@, network@)].ip_address == Some(ip))),
        !has_address_on(*report, network@) ==> (r matches Err(e) && e.message@
            == "invalid service network config"@),
{
    let key = String::from_str(network);
    match &report.networks {
        None => Err(BackendError { message: String::from_str("invalid service network config") }),
        Some(atts) => {
            let mut i: usize = 0;
            while i < atts.len()
                invariant
                    i <= atts@.len(),
                    key@ == network@,
                    report.networks == Some(*atts),
                    forall|j: int| 0 <= j < i ==> (#[trigger] atts@[j]).network@ != network@,
                decreases atts@.len() - i,
            {
                if atts[i].network == key {
                    proof {
                        assert((i as int) < atts@.len() && atts@[i as int].network@ == network@
                            && (forall|j: int| 0 <= j < i as int ==> atts@[j].network@ != network@));
                        let w = first_attachment(atts@, network@);
                        assert(0 <= w < atts@.len() && atts@[w].network@ == network@ && (forall|
                            j: int,
                        | 0 <= j < w ==> atts@[j].network@ != network@));
                        if w < i as int {
                            assert(atts@[w].network@ != network@);
                        }
                        if w > i as int {
                            assert(atts@[i as int].network@ != network@);
                        }
                        assert(w == i as int);
                    }
                    match &atts[i].ip_address {
                        Some(a) => {
                            let ip = a.clone();
                            proof {
                                assert(has_attachment(atts@, network@));
                                assert(has_address_on(*report, network@));
                            }
                            return Ok(ip);
                        },
                        None => {
                            return Err(
                                BackendError {
                                    message: String::from_str("invalid service network config"),
                                },
                            );
                        },
                    }
                }
                i = i + 1;
            }
            Err(BackendError { message: String::from_str("invalid service network config") })
        },
    }
}

} // verus!
