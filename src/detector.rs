//! The installation detector: independent probes, each failing soft, and a
//! majority verdict over them.

use vstd::prelude::*;
use crate::text::{contains_text, occurs_in, trim_text, trimmed};

verus! {

/// What a probe command produced, when it could be run at all.
pub struct ProbeOutput {
    /// The command exited successfully.
    pub success: bool,
    /// Its standard output, as text.
    pub stdout: String,
}

/// How many of the results are `true`.
pub open spec fn count_true(results: Seq<bool>) -> nat
    decreases results.len(),
{
    if results.len() == 0 {
        0
    } else {
        count_true(results.drop_last()) + if results.last() { 1nat } else { 0nat }
    }
}

/// Installed iff a strict majority of the probes succeed.
pub open spec fn majority(results: Seq<bool>) -> bool {
    2 * count_true(results) > results.len()
}

/// The majority verdict over the probe results.
pub fn verdict(results: &[bool]) -> (r: bool)
    ensures
        r == majority(results@),
{
    let mut count: usize = 0;
    let mut i: usize = 0;
    while i < results.len()
        invariant
            i <= results@.len(),
            count == count_true(results@.subrange(0, i as int)),
            count <= i,
        decreases results@.len() - i,
    {
        proof {
            assert(results@.subrange(0, i + 1).drop_last() =~= results@.subrange(0, i as int));
        }
        if results[i] {
            count = count + 1;
        }
        i = i + 1;
    }
    proof {
        assert(results@.subrange(0, results@.len() as int) =~= results@);
    }
    count > results.len() - count
}

/// The Linux service probe: the unit list names the server's unit.
pub open spec fn linux_service_found(o: Option<ProbeOutput>) -> bool {
    o matches Some(p) && occurs_in(p.stdout@, "mongod.service"@)
}

/// The Linux binary probe: looking the server up on the path succeeded.
pub open spec fn linux_binary_found(o: Option<ProbeOutput>) -> bool {
    o matches Some(p) && p.success
}

/// The Linux version probe: the version query succeeded and printed something.
pub open spec fn linux_version_found(o: Option<ProbeOutput>) -> bool {
    o matches Some(p) && p.success && p.stdout@.len() > 0
}

/// The Windows service probe: the service query does not report a missing service.
pub open spec fn windows_service_found(o: Option<ProbeOutput>) -> bool {
    o matches Some(p) && !occurs_in(p.stdout@, "DOES_NOT_EXIST"@)
}

/// The Windows connection probe: the port check printed `True`.
pub open spec fn windows_connection_found(o: Option<ProbeOutput>) -> bool {
    o matches Some(p) && trimmed(p.stdout@) == "True"@
}

/// Linux service probe; a probe that could not run counts as not found.
pub fn linux_service_probe(o: &Option<ProbeOutput>) -> (r: bool)
    ensures
        r == linux_service_found(*o),
{
    match o {
        Some(p) => contains_text(p.stdout.as_str(), "mongod.service"),
        None => false,
    }
}

/// Linux binary probe; a probe that could not run counts as not found.
pub fn linux_binary_probe(o: &Option<ProbeOutput>) -> (r: bool)
    ensures
        r == linux_binary_found(*o),
{
    match o {
        Some(p) => p.success,
        None => false,
    }
}

/// Linux version probe; a probe that could not run counts as not found.
pub fn linux_version_probe(o: &Option<ProbeOutput>) -> (r: bool)
    ensures
        r == linux_version_found(*o),
{
    match o {
        Some(p) => p.success && p.stdout.as_str().unicode_len() > 0,
        None => false,
    }
}

/// Windows service probe; a probe that could not run counts as not found.
pub fn windows_service_probe(o: &Option<ProbeOutput>) -> (r: bool)
    ensures
        r == windows_service_found(*o),
{
    match o {
        Some(p) => !contains_text(p.stdout.as_str(), "DOES_NOT_EXIST"),
        None => false,
    }
}

/// Windows connection probe; a probe that could not run counts as not found.
pub fn windows_connection_probe(o: &Option<ProbeOutput>) -> (r: bool)
    ensures
        r == windows_connection_found(*o),
{
    match o {
        Some(p) => {
            let t = String::from_str(trim_text(p.stdout.as_str()));
            t == String::from_str("True")
        },
        None => false,
    }
}

/// Whether the server is installed on Linux: the majority of the service,
/// binary and version probes.
pub fn linux_installed(
    service: &Option<ProbeOutput>,
    binary: &Option<ProbeOutput>,
    version: &Option<ProbeOutput>,
) -> (r: bool)
    ensures
        r == majority(
            seq![linux_service_found(*service), linux_binary_found(*binary), linux_version_found(*version)],
        ),
{
    let results = [
        linux_service_probe(service),
        linux_binary_probe(binary),
        linux_version_probe(version),
    ];
    proof {
        assert(results@ =~= seq![linux_service_found(*service), linux_binary_found(*binary), linux_version_found(*version)]);
    }
    verdict(&results)
}

/// Whether the server is installed on Windows: the majority of the service
/// probe, the presence of the installation directory and the connection probe.
pub fn windows_installed(
    service: &Option<ProbeOutput>,
    server_dir_exists: bool,
    connection: &Option<ProbeOutput>,
) -> (r: bool)
    ensures
        r == majority(
            seq![windows_service_found(*service), server_dir_exists, windows_connection_found(*connection)],
        ),
{
    let results = [
        windows_service_probe(service),
        server_dir_exists,
        windows_connection_probe(connection),
    ];
    proof {
        assert(results@ =~= seq![windows_service_found(*service), server_dir_exists, windows_connection_found(*connection)]);
    }
    verdict(&results)
}

/// Of three probes, the verdict is `installed` exactly when at least two
/// succeed, so one dissenting or failing probe never flips it.
pub proof fn lemma_two_of_three(a: bool, b: bool, c: bool)
    ensures
        majority(seq![a, b, c]) == ((a && b) || (a && c) || (b && c)),
{
    let s = seq![a, b, c];
    assert(s.drop_last() =~= seq![a, b]);
    assert(seq![a, b].drop_last() =~= seq![a]);
    assert(seq![a].drop_last() =~= Seq::<bool>::empty());
    assert(count_true(Seq::<bool>::empty()) == 0);
    assert(count_true(seq![a]) == if a { 1nat } else { 0nat });
    assert(count_true(seq![a, b]) == count_true(seq![a]) + if b { 1nat } else { 0nat });
    assert(count_true(s) == count_true(seq![a, b]) + if c { 1nat } else { 0nat });
}

/// The verdict depends on the probe results alone: asking twice with no change
/// in between gives the same answer both times.
pub proof fn lemma_verdict_repeatable(first: Seq<bool>, second: Seq<bool>)
    requires
        first == second,
    ensures
        majority(first) == majority(second),
{
}

} // verus!
