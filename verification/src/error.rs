use vstd::prelude::*;

verus! {

/// Fatal outcomes observable at the engine boundary. Each carries enough to
/// locate the failing record: `pcap_index` is the one-based ordinal of the
/// packet record being decoded when the failure was observed.
#[derive(Clone, Copy, PartialEq, Eq, Structural, Debug)]
pub enum Error {
    /// End of input; normal termination, not a fault.
    ReaderExhausted,
    /// An unparseable block or a truncated record, at the given record index.
    MalformedCapture(u64),
    /// A link type for which no packet-data decoder exists.
    UnsupportedLink(u16),
    /// An analyzer reported a failure while handling the record at the given
    /// index.
    AnalyzerError(u64),
}

} // verus!
