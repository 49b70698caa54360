//! The decision side of the network coordinator: commands, the
//! upload batch buffer with its all-or-nothing outcome rule, and the
//! reading of card-state rejections into blacklist additions.

use vstd::prelude::*;

verus! {

use crate::model::{CardRegistration, UploadRecord};
use crate::strutil::str_eq;

/// Seconds a non-empty batch may age before it is flushed anyway.
pub const UPLOAD_IDLE_FLUSH_SECS: u64 = 5;

/// A command for the network worker.
pub enum NetCommand {
    SyncConfig { route_id: u16 },
    UploadNow,
    SetBackend { base_url: String },
    LookupCard { card_id: String },
    RegisterCard { payload: CardRegistration },
}

/// One rejection from a card-state batch response.
pub struct CardStateReject {
    pub card_id: String,
    pub reason: Option<String>,
}

/// The upload batch buffer. Records accumulate until the batch size
/// is reached or the buffer has aged; an upload outcome either
/// clears the whole buffer or leaves it untouched.
pub struct UploadBatcher {
    records: Vec<UploadRecord>,
    batch_size: usize,
}

impl UploadBatcher {
    pub closed spec fn view_records(&self) -> Seq<UploadRecord> {
        self.records@
    }

    pub closed spec fn batch(&self) -> usize {
        self.batch_size
    }

    pub fn new(batch_size: usize) -> (r: Self)
        ensures
            r.view_records() == Seq::<UploadRecord>::empty(),
            r.batch() == batch_size,
    {
        Self { records: Vec::new(), batch_size }
    }

    pub fn len(&self) -> (r: usize)
        ensures
            r == self.view_records().len(),
    {
        self.records.len()
    }

    pub fn is_empty(&self) -> (r: bool)
        ensures
            r == (self.view_records().len() == 0),
    {
        self.records.len() == 0
    }

    /// Queues a record; the answer says whether the batch size is
    /// reached and the buffer should be flushed now.
    pub fn push(&mut self, record: UploadRecord) -> (flush_now: bool)
        ensures
            final(self).batch() == old(self).batch(),
            final(self).view_records() == old(self).view_records().push(record),
            flush_now == (final(self).view_records().len() >= final(self).batch()),
    {
        self.records.push(record);
        self.records.len() >= self.batch_size
    }

    /// Whether a timer tick should flush: the buffer is non-empty
    /// and has aged at least the idle limit.
    pub fn idle_flush_due(&self, idle_secs: u64) -> (r: bool)
        ensures
            r == (self.view_records().len() > 0 && idle_secs >= UPLOAD_IDLE_FLUSH_SECS),
    {
        self.records.len() > 0 && idle_secs >= UPLOAD_IDLE_FLUSH_SECS
    }

    /// An equal copy of the queued records, oldest first, for the
    /// next POST body.
    pub fn snapshot_records(&self) -> (r: Vec<UploadRecord>)
        ensures
            r@ == self.view_records(),
    {
        let mut out: Vec<UploadRecord> = Vec::new();
        let mut i: usize = 0;
        while i < self.records.len()
            invariant
                i <= self.records@.len(),
                out@ == self.records@.take(i as int),
            decreases self.records@.len() - i,
        {
            let copy = self.records[i].duplicate();
            out.push(copy);
            proof {
                assert(out@ =~= self.records@.take(i as int + 1));
            }
            i = i + 1;
        }
        proof {
            assert(self.records@.take(self.records@.len() as int) =~= self.records@);
        }
        out
    }

    /// Applies the upload outcome: success clears the whole buffer,
    /// anything else leaves every record in place.
    pub fn on_upload_outcome(&mut self, success: bool)
        ensures
            final(self).batch() == old(self).batch(),
            success ==> final(self).view_records() == Seq::<UploadRecord>::empty(),
            !success ==> final(self).view_records() == old(self).view_records(),
    {
        if success {
            self.records.clear();
        }
    }
}

/// Whether some reason reads exactly "card blocked".
pub open spec fn is_blocked_reason(reason: Option<String>) -> bool {
    reason matches Some(r) && r@ == "card blocked"@
}

/// The ids of exactly those rejections whose reason is the literal
/// "card blocked", in order; other reasons never blacklist a card.
pub open spec fn blocked_ids(s: Seq<CardStateReject>) -> Seq<Seq<char>>
    decreases s.len(),
{
    if s.len() == 0 {
        Seq::empty()
    } else if is_blocked_reason(s[0].reason) {
        seq![s[0].card_id@] + blocked_ids(s.drop_first())
    } else {
        blocked_ids(s.drop_first())
    }
}

/// Reads the card-state rejections into the blacklist additions
/// they call for.
#[verifier::loop_isolation(false)]
pub fn blacklist_additions(rejections: Vec<CardStateReject>) -> (r: Vec<String>)
    ensures
        r@.map_values(|s: String| s@) == blocked_ids(rejections@),
{
    let mut out: Vec<String> = Vec::new();
    let mut i: usize = 0;
    proof {
        assert(rejections@.skip(0) =~= rejections@);
        assert(out@.map_values(|s: String| s@) =~= Seq::<Seq<char>>::empty());
    }
    while i < rejections.len()
        invariant
            i <= rejections@.len(),
            blocked_ids(rejections@) == out@.map_values(|s: String| s@) + blocked_ids(
                rejections@.skip(i as int),
            ),
        decreases rejections@.len() - i,
    {
        proof {
            assert(rejections@.skip(i as int)[0] == rejections@[i as int]);
            assert(rejections@.skip(i as int).drop_first() =~= rejections@.skip(i as int + 1));
        }
        let matched = match &rejections[i].reason {
            Some(reason) => str_eq(reason.as_str(), "card blocked"),
            None => false,
        };
        if matched {
            let id = rejections[i].card_id.clone();
            let ghost prev = out@;
            out.push(id);
            proof {
                assert(out@.map_values(|s: String| s@) =~= prev.map_values(|s: String| s@).push(
                    rejections@[i as int].card_id@,
                ));
                assert(prev.map_values(|s: String| s@).push(rejections@[i as int].card_id@)
                    + blocked_ids(rejections@.skip(i as int + 1)) =~= prev.map_values(
                    |s: String| s@,
                ) + (seq![rejections@[i as int].card_id@] + blocked_ids(
                    rejections@.skip(i as int + 1),
                )));
            }
        }
        i = i + 1;
    }
    proof {
        assert(rejections@.skip(rejections@.len() as int) =~= Seq::<CardStateReject>::empty());
        assert(out@.map_values(|s: String| s@) + Seq::<Seq<char>>::empty() =~= out@.map_values(
            |s: String| s@,
        ));
    }
    out
}

} // verus!
