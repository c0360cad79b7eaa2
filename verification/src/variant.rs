use vstd::prelude::*;
use vstd::string::*;
use crate::connection::{property_lookup, same_source, NativeRecord, WMIConnection};
use crate::error::WMIError;
use crate::query::ManagedRecord;

verus! {

/// The discriminated representations a native property value can carry.
/// Only the text case is decoded by this layer; the other tags exist so the
/// decoder's tag check has something real to reject.
pub enum TaggedValue {
    /// No value is present under the requested name.
    Empty,
    /// The property exists but holds the null representation.
    Null,
    /// A boolean-tagged value.
    Boolean(bool),
    /// An integer-tagged value.
    Numeric(i64),
    /// A text-tagged value.
    Text(String),
}

/// `a` carries the same tag as `b`, and the same payload up to string view.
pub open spec fn tv_matches(a: TaggedValue, b: TaggedValue) -> bool {
    match a {
        TaggedValue::Empty => b is Empty,
        TaggedValue::Null => b is Null,
        TaggedValue::Boolean(x) => b matches TaggedValue::Boolean(y) && x == y,
        TaggedValue::Numeric(x) => b matches TaggedValue::Numeric(y) && x == y,
        TaggedValue::Text(s) => b matches TaggedValue::Text(t) && s@ == t@,
    }
}

/// A native value buffer, filled by the property-get call. It owns one
/// native buffer reference, which must be cleared exactly once; clearing
/// consumes the buffer, so a cleared buffer cannot be read again.
pub struct VariantBuf {
    /// The tagged value the native call deposited.
    pub value: TaggedValue,
}

impl TaggedValue {
    /// An owned copy of this value, equal to it up to string view.
    pub fn duplicate(&self) -> (r: TaggedValue)
        ensures
            tv_matches(r, *self),
    {
        match self {
            TaggedValue::Empty => TaggedValue::Empty,
            TaggedValue::Null => TaggedValue::Null,
            TaggedValue::Boolean(b) => TaggedValue::Boolean(*b),
            TaggedValue::Numeric(n) => TaggedValue::Numeric(*n),
            TaggedValue::Text(s) => TaggedValue::Text(s.clone()),
        }
    }
}

/// Scans the record's property bag for `name`: the first property of that
/// name wins, and the copy handed back matches the stored value up to
/// string view. `None` means the name does not occur, which is exactly the
/// case in which `property_lookup` reads back the empty representation.
fn lookup_property(rec: &NativeRecord, name: &str) -> (r: Option<TaggedValue>)
    ensures
        (r matches Some(v) ==> tv_matches(v, property_lookup(rec.properties@, name@))),
        r is None ==> property_lookup(rec.properties@, name@) is Empty,
{
    let name_s = String::from_str(name);
    let n = rec.properties.len();
    let mut j: usize = 0;
    proof {
        assert(rec.properties@.skip(0) =~= rec.properties@);
    }
    while j < n
        invariant
            j <= n,
            n == rec.properties@.len(),
            name_s@ == name@,
            property_lookup(rec.properties@, name@)
                == property_lookup(rec.properties@.skip(j as int), name@),
        decreases n - j,
    {
        let p = &rec.properties[j];
        if p.name.eq(&name_s) {
            proof {
                assert(rec.properties@.skip(j as int)[0] == rec.properties@[j as int]);
            }
            return Some(p.value.duplicate());
        }
        proof {
            assert(rec.properties@.skip(j as int)[0] == rec.properties@[j as int]);
            assert(rec.properties@.skip(j as int).drop_first()
                =~= rec.properties@.skip(j as int + 1));
        }
        j += 1;
    }
    proof {
        assert(rec.properties@.skip(j as int).len() == 0);
    }
    None
}

impl WMIConnection {
    /// Model of the native "get named property into a caller-provided value
    /// buffer" call. The returned buffer holds a copy of the record's value
    /// under that name (the empty representation when the name is absent),
    /// and one more native buffer reference is outstanding until the buffer
    /// is cleared. The call's own status is advisory and not modeled as a
    /// failure: what matters to safety is the buffer's tag, which the caller
    /// must check before interpreting the payload.
    pub fn get_property(&mut self, record: &ManagedRecord, name: &str) -> (r: VariantBuf)
        requires
            record.obj matches Some(i) && i < old(self).records@.len(),
            old(self).buffer_refs < u64::MAX,
        ensures
            same_source(*old(self), *final(self)),
            final(self).enumerator_refs == old(self).enumerator_refs,
            final(self).object_refs == old(self).object_refs,
            final(self).buffer_refs == old(self).buffer_refs + 1,
            tv_matches(
                r.value,
                property_lookup(
                    old(self).records@[record.obj->0 as int].properties@,
                    name@,
                ),
            ),
    {
        let i = record.index();
        let found = lookup_property(&self.records[i], name);
        self.buffer_refs = self.buffer_refs + 1;
        match found {
            Some(v) => VariantBuf { value: v },
            None => VariantBuf { value: TaggedValue::Empty },
        }
    }

    /// Model of the native "clear this value buffer" call. Consumes the
    /// buffer — the one mechanism by which its reference can be given back —
    /// so a double clear is unwritable rather than merely incorrect.
    pub fn clear_variant(&mut self, buf: VariantBuf)
        requires
            old(self).buffer_refs >= 1,
        ensures
            same_source(*old(self), *final(self)),
            final(self).enumerator_refs == old(self).enumerator_refs,
            final(self).object_refs == old(self).object_refs,
            final(self).buffer_refs == old(self).buffer_refs - 1,
    {
        let VariantBuf { value: _ } = buf;
        self.buffer_refs = self.buffer_refs - 1;
    }
}

/// Extracts the named property of `record` as text.
///
/// The buffer's tag is checked before its payload is interpreted: a tag
/// other than text yields `UnexpectedValueKind`, and the payload is never
/// read under a tag it does not carry. On every path — success and failure
/// alike — the native value buffer is cleared exactly once before this
/// returns, so the connection's buffer count is unchanged on return.
pub fn decode_text_property(
    con: &mut WMIConnection,
    record: &ManagedRecord,
    property_name: &str,
) -> (r: Result<String, WMIError>)
    requires
        record.obj matches Some(i) && i < old(con).records@.len(),
        old(con).buffer_refs < u64::MAX,
    ensures
        same_source(*old(con), *final(con)),
        final(con).enumerator_refs == old(con).enumerator_refs,
        final(con).object_refs == old(con).object_refs,
        final(con).buffer_refs == old(con).buffer_refs,
        r is Ok <==> property_lookup(
            old(con).records@[record.obj->0 as int].properties@,
            property_name@,
        ) is Text,
        (r matches Ok(s) ==> property_lookup(
            old(con).records@[record.obj->0 as int].properties@,
            property_name@,
        ) matches TaggedValue::Text(t) && s@ == t@),
        r matches Err(e) ==> e == WMIError::UnexpectedValueKind,
{
    let buf = con.get_property(record, property_name);
    let result: Result<String, WMIError> = match &buf.value {
        TaggedValue::Text(s) => Ok(s.clone()),
        _ => Err(WMIError::UnexpectedValueKind),
    };
    con.clear_variant(buf);
    result
}

} // verus!
