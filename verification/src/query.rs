use vstd::prelude::*;
use crate::connection::{property_lookup, same_source, WMIConnection};
use crate::error::WMIError;
use crate::variant::{decode_text_property, TaggedValue};

verus! {

/// A single-reference wrapper around a native per-record object obtained by
/// a pull. It owns exactly one native reference, which `release` gives back;
/// `release` consumes the wrapper, so releasing twice is unwritable.
pub struct ManagedRecord {
    /// The native object handle; `Some` while the one reference is held.
    pub obj: Option<usize>,
}

/// What the native fetch call produced.
pub enum PullOutcome {
    /// The native fetch call reported a failure status.
    Failed,
    /// The native side reported zero records returned: the cursor is done.
    NoMore,
    /// A record was returned; the caller now owns one native reference.
    Object(ManagedRecord),
}

impl ManagedRecord {
    /// The native object handle this wrapper holds.
    pub fn index(&self) -> (r: usize)
        requires
            self.obj is Some,
        ensures
            r == self.obj->0,
    {
        self.obj.unwrap()
    }

    /// Releases the one native reference this wrapper owns, consuming the
    /// wrapper. A wrapper that never held a reference gives nothing back.
    pub fn release(self, con: &mut WMIConnection)
        requires
            self.obj is Some ==> old(con).object_refs >= 1,
        ensures
            same_source(*old(con), *final(con)),
            final(con).enumerator_refs == old(con).enumerator_refs,
            final(con).buffer_refs == old(con).buffer_refs,
            self.obj is Some ==> final(con).object_refs == old(con).object_refs - 1,
            self.obj is None ==> final(con).object_refs == old(con).object_refs,
    {
        match self.obj {
            Some(_) => {
                con.object_refs = con.object_refs - 1;
            },
            None => {},
        }
    }
}

impl WMIConnection {
    /// Model of the native "fetch next record" call, blocking until a record
    /// is available or the source signals completion. At the configured
    /// failure position it reports failure; past the last record it reports
    /// zero records returned; otherwise it hands out the record at `pos`
    /// along with one fresh native object reference, which the caller now
    /// owes back.
    pub fn pull_next(&mut self, pos: usize) -> (r: PullOutcome)
        requires
            old(self).object_refs < u64::MAX,
        ensures
            same_source(*old(self), *final(self)),
            final(self).enumerator_refs == old(self).enumerator_refs,
            final(self).buffer_refs == old(self).buffer_refs,
            (r is Failed <==> old(self).fail_fetch_at == Some(pos)),
            (r is NoMore <==> (old(self).fail_fetch_at != Some(pos)
                && pos >= old(self).records@.len())),
            (r is Failed || r is NoMore) ==> final(self).object_refs == old(self).object_refs,
            (r matches PullOutcome::Object(rec) ==> {
                &&& rec.obj == Some(pos)
                &&& pos < old(self).records@.len()
                &&& final(self).object_refs == old(self).object_refs + 1
            }),
            (old(self).fail_fetch_at != Some(pos) && pos < old(self).records@.len())
                ==> r is Object,
    {
        let fail_here = match self.fail_fetch_at {
            Some(k) => k == pos,
            None => false,
        };
        if fail_here {
            return PullOutcome::Failed;
        }
        if pos >= self.records.len() {
            return PullOutcome::NoMore;
        }
        self.object_refs = self.object_refs + 1;
        PullOutcome::Object(ManagedRecord { obj: Some(pos) })
    }

    /// Submits the query for forward-only, immediate-return execution. On a
    /// native failure status no cursor is constructed and no reference is
    /// acquired; on success the returned cursor exclusively owns one fresh
    /// native enumerator reference and stands before the first record.
    ///
    /// What executing the text means is the native side's business: the model
    /// delivers its configured records whatever the query text says.
    pub fn query(&mut self, query_text: &str) -> (r: Result<QueryResultEnumerator, WMIError>)
        requires
            old(self).enumerator_refs < u64::MAX,
            old(self).next_handle < u64::MAX,
        ensures
            final(self).records == old(self).records,
            final(self).exec_fails == old(self).exec_fails,
            final(self).fail_fetch_at == old(self).fail_fetch_at,
            final(self).object_refs == old(self).object_refs,
            final(self).buffer_refs == old(self).buffer_refs,
            (r is Ok <==> !old(self).exec_fails),
            old(self).exec_fails ==> {
                &&& r == Err::<QueryResultEnumerator, WMIError>(WMIError::QueryExecutionError)
                &&& final(self).enumerator_refs == old(self).enumerator_refs
                &&& final(self).next_handle == old(self).next_handle
            },
            (r matches Ok(c) ==> {
                &&& c.p_enumerator == Some(old(self).next_handle)
                &&& c.pos == 0
                &&& final(self).enumerator_refs == old(self).enumerator_refs + 1
                &&& final(self).next_handle == old(self).next_handle + 1
            }),
    {
        if self.exec_fails {
            return Err(WMIError::QueryExecutionError);
        }
        let handle = self.next_handle;
        self.next_handle = self.next_handle + 1;
        self.enumerator_refs = self.enumerator_refs + 1;
        Ok(QueryResultEnumerator { p_enumerator: Some(handle), pos: 0 })
    }
}

/// A forward-only result cursor. It exclusively owns at most one native
/// enumerator reference (`Some` = live) and remembers how far the native
/// cursor has advanced.
pub struct QueryResultEnumerator {
    /// The native enumerator handle; `Some` while the reference is held.
    pub p_enumerator: Option<u64>,
    /// Index of the next record the native cursor will deliver.
    pub pos: usize,
}

/// The tagged value stored under the name `Caption` in the record at `pos`.
pub open spec fn caption_value(con: WMIConnection, pos: int) -> TaggedValue {
    property_lookup(con.records@[pos].properties@, "Caption"@)
}

impl QueryResultEnumerator {
    /// The native enumerator handle. As in the native layer, asking a cursor
    /// that holds no reference for its handle is a caller error, so a live
    /// reference is required.
    pub fn p(&self) -> (r: u64)
        requires
            self.p_enumerator is Some,
        ensures
            r == self.p_enumerator->0,
    {
        self.p_enumerator.unwrap()
    }

    /// Pulls the next record and decodes its `Caption` property as text.
    ///
    /// Whatever the pull produces, by the time this returns the per-record
    /// native references and value buffers attributable to this layer are
    /// exactly what they were before the call: a delivered record is
    /// released on the success path and on the decode-failure path alike.
    ///
    /// A cursor that holds no enumerator reference reports `None`. A native
    /// fetch failure is reported as `Some(Err(FetchError))` — never silently
    /// as `None` — and does not advance the cursor, so the failure is
    /// terminal. Exhaustion (`None`) does not advance the cursor either and
    /// is therefore stable. A delivered record advances the cursor by one
    /// and yields its decoded `Caption`: the text under that name, or
    /// `UnexpectedValueKind` when the value under that name carries another
    /// tag.
    pub fn next(&mut self, con: &mut WMIConnection) -> (r: Option<Result<String, WMIError>>)
        requires
            old(con).object_refs < u64::MAX,
            old(con).buffer_refs < u64::MAX,
        ensures
            same_source(*old(con), *final(con)),
            final(con).enumerator_refs == old(con).enumerator_refs,
            final(con).object_refs == old(con).object_refs,
            final(con).buffer_refs == old(con).buffer_refs,
            final(self).p_enumerator == old(self).p_enumerator,
            old(self).p_enumerator is None ==> {
                &&& r is None
                &&& final(self).pos == old(self).pos
            },
            (old(self).p_enumerator is Some
                && old(con).fail_fetch_at == Some(old(self).pos)) ==> {
                &&& r == Some(Err::<String, WMIError>(WMIError::FetchError))
                &&& final(self).pos == old(self).pos
            },
            (old(self).p_enumerator is Some
                && old(con).fail_fetch_at != Some(old(self).pos)
                && old(self).pos >= old(con).records@.len()) ==> {
                &&& r is None
                &&& final(self).pos == old(self).pos
            },
            (old(self).p_enumerator is Some
                && old(con).fail_fetch_at != Some(old(self).pos)
                && old(self).pos < old(con).records@.len()) ==> {
                &&& final(self).pos == old(self).pos + 1
                &&& (caption_value(*old(con), old(self).pos as int) is Text ==> (
                    r matches Some(x) && x matches Ok(s)
                    && caption_value(*old(con), old(self).pos as int)
                        matches TaggedValue::Text(t)
                    && s@ == t@
                ))
                &&& (!(caption_value(*old(con), old(self).pos as int) is Text) ==>
                    r == Some(Err::<String, WMIError>(WMIError::UnexpectedValueKind)))
            },
    {
        if self.p_enumerator.is_none() {
            return None;
        }
        match con.pull_next(self.pos) {
            PullOutcome::Failed => Some(Err(WMIError::FetchError)),
            PullOutcome::NoMore => None,
            PullOutcome::Object(record) => {
                proof {
                    assert(con.records.len() == con.records@.len());
                }
                self.pos = self.pos + 1;
                let result = decode_text_property(con, &record, "Caption");
                record.release(con);
                Some(result)
            },
        }
    }

    /// Destructor-equivalent: gives back the enumerator reference, exactly
    /// once. The "is a reference held" state is consumed atomically with the
    /// release, so a cursor that already released — or that reported
    /// exhaustion and was then destroyed — gives nothing back a second time.
    pub fn release(&mut self, con: &mut WMIConnection)
        requires
            old(self).p_enumerator is Some ==> old(con).enumerator_refs >= 1,
        ensures
            same_source(*old(con), *final(con)),
            final(con).object_refs == old(con).object_refs,
            final(con).buffer_refs == old(con).buffer_refs,
            final(self).p_enumerator is None,
            final(self).pos == old(self).pos,
            old(self).p_enumerator is Some ==>
                final(con).enumerator_refs == old(con).enumerator_refs - 1,
            old(self).p_enumerator is None ==>
                final(con).enumerator_refs == old(con).enumerator_refs,
    {
        if self.p_enumerator.is_some() {
            self.p_enumerator = None;
            con.enumerator_refs = con.enumerator_refs - 1;
        }
    }
}

/// A source against which no error occurs: query execution succeeds, no
/// fetch failure is configured, and every record's `Caption` carries the
/// text tag.
pub open spec fn clean_source(con: WMIConnection) -> bool {
    &&& !con.exec_fails
    &&& con.fail_fetch_at is None
    &&& forall|i: int|
        0 <= i < con.records@.len() ==> caption_value(con, i) is Text
}

/// The cursor position after `k` pulls against a source with no fetch
/// failure: a pull standing before a record advances past it, and a pull
/// standing past the last record stays put.
pub open spec fn spec_pos_after(con: WMIConnection, k: nat) -> int
    decreases k,
{
    if k == 0 {
        0
    } else {
        let p = spec_pos_after(con, (k - 1) as nat);
        if p < con.records@.len() {
            p + 1
        } else {
            p
        }
    }
}

/// Pull-count law: against a clean source holding `n` records, a fresh
/// cursor stands at position `min(k, n)` after its first `k` pulls. With
/// `next`'s contract this says that each of the first `n` pulls stands
/// before a record whose `Caption` is text and so returns `Some(Ok(_))`,
/// while every later pull stands at `n` and returns `None`: exactly `n`
/// pulls deliver, and exhaustion is stable.
pub proof fn lemma_exact_pull_count(con: WMIConnection, k: nat)
    requires
        clean_source(con),
    ensures
        k <= con.records@.len() ==> spec_pos_after(con, k) == k,
        k > con.records@.len() ==> spec_pos_after(con, k) == con.records@.len(),
        spec_pos_after(con, k) < con.records@.len() ==>
            caption_value(con, spec_pos_after(con, k)) is Text,
    decreases k,
{
    if k > 0 {
        lemma_exact_pull_count(con, (k - 1) as nat);
    }
}

impl QueryResultEnumerator {
    /// Pulls until the cursor reports exhaustion, collecting the decoded
    /// values in delivery order. Against a clean source holding `n` records
    /// this returns exactly the `n` captions — the executable face of the
    /// pull-count law — and leaves every reference count where it was.
    pub fn collect_all(&mut self, con: &mut WMIConnection) -> (r: Vec<String>)
        requires
            clean_source(*old(con)),
            old(self).p_enumerator is Some,
            old(self).pos == 0,
            old(con).object_refs < u64::MAX,
            old(con).buffer_refs < u64::MAX,
        ensures
            same_source(*old(con), *final(con)),
            final(con).enumerator_refs == old(con).enumerator_refs,
            final(con).object_refs == old(con).object_refs,
            final(con).buffer_refs == old(con).buffer_refs,
            final(self).p_enumerator == old(self).p_enumerator,
            r@.len() == old(con).records@.len(),
            forall|i: int|
                0 <= i < r@.len() ==> (#[trigger] caption_value(*old(con), i)
                    matches TaggedValue::Text(t) && r@[i]@ == t@),
    {
        let ghost con0 = *old(con);
        let mut out: Vec<String> = Vec::new();
        loop
            invariant
                con0 == *old(con),
                clean_source(*con),
                same_source(con0, *con),
                con.enumerator_refs == con0.enumerator_refs,
                con.object_refs == con0.object_refs,
                con.buffer_refs == con0.buffer_refs,
                con.object_refs < u64::MAX,
                con.buffer_refs < u64::MAX,
                self.p_enumerator == old(self).p_enumerator,
                self.p_enumerator is Some,
                self.pos == out@.len(),
                self.pos <= con.records@.len(),
                forall|i: int|
                    0 <= i < out@.len() ==> (#[trigger] caption_value(con0, i)
                        matches TaggedValue::Text(t) && out@[i]@ == t@),
            decreases con.records@.len() - self.pos,
        {
            proof {
                assert(caption_value(con0, self.pos as int)
                    == caption_value(*con, self.pos as int));
            }
            match self.next(con) {
                None => {
                    return out;
                },
                Some(Ok(s)) => {
                    out.push(s);
                },
                Some(Err(_)) => {
                    proof {
                        assert(false);
                    }
                },
            }
        }
    }
}

} // verus!
