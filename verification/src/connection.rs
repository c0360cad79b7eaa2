use vstd::prelude::*;
use crate::variant::TaggedValue;

verus! {

/// One named, dynamically-typed field of a record.
pub struct Property {
    pub name: String,
    pub value: TaggedValue,
}

/// One record of the data source: a property bag.
pub struct NativeRecord {
    pub properties: Vec<Property>,
}

/// The tagged value stored under `name` in `props`; first match wins, and a
/// name that does not occur reads back as the empty representation, which is
/// what the native property-get deposits for an absent property.
pub open spec fn property_lookup(props: Seq<Property>, name: Seq<char>) -> TaggedValue
    decreases props.len(),
{
    if props.len() == 0 {
        TaggedValue::Empty
    } else if props[0].name@ == name {
        props[0].value
    } else {
        property_lookup(props.drop_first(), name)
    }
}

/// The connection to the data source, together with an in-process model of
/// the native side: the records a query will deliver, the configured failure
/// points, and a count of every native reference attributable to this layer.
///
/// The native service itself lives outside this library (establishing it is
/// the connection collaborator's business); what this type holds is the
/// observable contract of that service, so that the cursor and decoder logic
/// built on top of it is verified against explicit reference accounting. The
/// counters make the type its own test double: a test can assert after any
/// call that every acquired reference has been released.
pub struct WMIConnection {
    /// Records the data source delivers, in delivery order.
    pub records: Vec<NativeRecord>,
    /// Whether the native query-execution call reports a non-success status.
    pub exec_fails: bool,
    /// Position at which the native fetch call reports failure, if any.
    pub fail_fetch_at: Option<usize>,
    /// Live native enumerator references attributable to this layer.
    pub enumerator_refs: u64,
    /// Live native per-record object references attributable to this layer.
    pub object_refs: u64,
    /// Native value buffers handed out and not yet cleared.
    pub buffer_refs: u64,
    /// The next native enumerator handle value to hand out.
    pub next_handle: u64,
}

/// The data and failure configuration of two connection states agree; the
/// reference counters are free to differ.
pub open spec fn same_source(a: WMIConnection, b: WMIConnection) -> bool {
    &&& a.records == b.records
    &&& a.exec_fails == b.exec_fails
    &&& a.fail_fetch_at == b.fail_fetch_at
    &&& a.next_handle == b.next_handle
}

impl WMIConnection {
    /// A live connection over the given records: no failures configured, no
    /// native reference held yet.
    pub fn new(records: Vec<NativeRecord>) -> (r: WMIConnection)
        ensures
            r.records == records,
            !r.exec_fails,
            r.fail_fetch_at is None,
            r.enumerator_refs == 0,
            r.object_refs == 0,
            r.buffer_refs == 0,
    {
        WMIConnection {
            records,
            exec_fails: false,
            fail_fetch_at: None,
            enumerator_refs: 0,
            object_refs: 0,
            buffer_refs: 0,
            next_handle: 1,
        }
    }
}

} // verus!
