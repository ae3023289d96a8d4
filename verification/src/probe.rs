//! The diagnostic probe: which lines of `/proc/self/status` it reports.
use crate::text::{ends_with, has_prefix, has_suffix, starts_with, str_eq};
use vstd::prelude::*;

verus! {

/// The fields of `/proc/self/status` that the probe reports: seccomp mode
/// and filters, the capability sets, and the namespaced process IDs.
pub open spec fn reported_fields() -> Seq<Seq<char>> {
    seq![
        "Seccomp:"@,
        "Seccomp_filters:"@,
        "CapInh:"@,
        "CapPrm:"@,
        "CapEff:"@,
        "CapBnd:"@,
        "CapAmb:"@,
        "NSpid:"@,
    ]
}

/// Whether the probe reports the status line `line`: it begins with one of
/// the reported fields.
pub fn is_reported_status_line(line: &str) -> (r: bool)
    ensures
        r == exists|i: int| 0 <= i < reported_fields().len() && has_prefix(line@, #[trigger] reported_fields()[i]),
{
    let fields = [
        "Seccomp:",
        "Seccomp_filters:",
        "CapInh:",
        "CapPrm:",
        "CapEff:",
        "CapBnd:",
        "CapAmb:",
        "NSpid:",
    ];
    assert(fields@.map_values(|f: &str| f@) =~= reported_fields());
    let mut i: usize = 0;
    while i < 8
        invariant
            i <= 8,
            fields@.map_values(|f: &str| f@) == reported_fields(),
            forall|j: int| 0 <= j < i ==> !has_prefix(line@, #[trigger] reported_fields()[j]),
        decreases 8 - i,
    {
        assert(fields@[i as int]@ == reported_fields()[i as int]);
        if starts_with(line, fields[i]) {
            return true;
        }
        i = i + 1;
    }
    false
}

/// The runtime runs as the probe when it is invoked by the name `jar-probe`,
/// with or without a directory before it.
pub fn is_probe_invocation(program_name: &str) -> (r: bool)
    ensures
        r == (program_name@ == "jar-probe"@ || has_suffix(program_name@, "/jar-probe"@)),
{
    str_eq(program_name, "jar-probe") || ends_with(program_name, "/jar-probe")
}

} // verus!
