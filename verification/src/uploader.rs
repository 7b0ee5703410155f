//! Batching queued observations for upload: which observations share a
//! batch, what a batch sends, what each job learns from an upload, how a
//! conflicting batch is split against the server's stored range, and when a
//! failed request is tried again.
use vstd::multiset::Multiset;
use vstd::prelude::*;

use crate::config_store::{store_after_failure, store_after_success, ConfigStore, ConfigStoreView};
use crate::hydroserver::{ObservationPayloadRow, RequestError};
use crate::job_logs::append_str;
use crate::models::{dt_lt, dt_lt_exec, dt_le, dt_le_exec, owned, AuthType, ServerConfig, UtcDateTime};
use crate::pipeline::{ObservationValue, ObservationValueView};
use crate::responses::ObservationContext;
use crate::records::{find_key, lemma_find_key_unique};
use crate::text::{trim_str, u64_to_decimal};

verus! {

/// How many observations a batch holds before it is sent.
pub const BATCH_SIZE: usize = 500;

/// How often, in seconds, pending batches are sent whatever their size.
pub const FLUSH_INTERVAL_SECS: u64 = 1;

/// Upload requests per second when no other rate is configured.
pub const DEFAULT_REQUESTS_PER_SECOND: u32 = 10;

/// The upload rate: `SDL_REQUESTS_PER_SECOND` (`setting`) when it reads,
/// trimmed, as a positive `u32`, else [`DEFAULT_REQUESTS_PER_SECOND`].
pub fn requests_per_second(setting: Option<&str>) -> (res: u32)
    ensures
        res > 0,
        res == match setting {
            Some(v) => match crate::text::parse_unsigned(crate::text::trim(v@), u32::MAX as int) {
                Some(n) => if n > 0 {
                    n as u32
                } else {
                    DEFAULT_REQUESTS_PER_SECOND
                },
                None => DEFAULT_REQUESTS_PER_SECOND,
            },
            None => DEFAULT_REQUESTS_PER_SECOND,
        },
{
    match setting {
        Some(v) => {
            let t = trim_str(v);
            let chars = crate::text::chars_of(t.as_str());
            match crate::text::parse_unsigned_chars(chars.as_slice(), u32::MAX as u64) {
                Some(n) => if n > 0 {
                    n as u32
                } else {
                    DEFAULT_REQUESTS_PER_SECOND
                },
                None => DEFAULT_REQUESTS_PER_SECOND,
            }
        },
        None => DEFAULT_REQUESTS_PER_SECOND,
    }
}

/// How many times a failed upload is tried again.
pub const MAX_RETRIES: usize = 3;

/// The wait before the first retry, in milliseconds; it doubles each time.
pub const INITIAL_BACKOFF_MS: u64 = 500;

/// An observation waiting to be uploaded.
#[derive(Debug, PartialEq, Eq)]
pub struct QueuedObservation {
    pub context: ObservationContext,
    pub timestamp: UtcDateTime,
    pub row_index: u64,
    pub value: ObservationValue,
}

// ---------------------------------------------------------------------------
// Payloads
// ---------------------------------------------------------------------------
/// The value uploaded for each timestamp: the last row with that timestamp
/// wins.
pub open spec fn last_values(rows: Seq<QueuedObservation>) -> Map<UtcDateTime, ObservationValueView>
    decreases rows.len(),
{
    if rows.len() == 0 {
        Map::empty()
    } else {
        last_values(rows.drop_last()).insert(rows.last().timestamp, rows.last().value@)
    }
}

/// `out` lists the entries of `m` in strictly increasing time order.
pub open spec fn lists_in_time_order(out: Seq<ObservationPayloadRow>, m: Map<UtcDateTime, ObservationValueView>) -> bool {
    &&& forall|i: int, j: int| 0 <= i < j < out.len() ==> dt_lt(
        (#[trigger] out[i]).phenomenon_time,
        (#[trigger] out[j]).phenomenon_time,
    )
    &&& forall|k: int| 0 <= k < out.len() ==> m.contains_key((#[trigger] out[k]).phenomenon_time)
        && m[out[k].phenomenon_time] == out[k].result@
    &&& forall|t: UtcDateTime| m.contains_key(t) ==> exists|k: int| 0 <= k < out.len() && (#[trigger] out[k]).phenomenon_time == t
}

/// The rows of an upload: one per distinct timestamp, in time order, with the
/// value of the last queued row at that timestamp, so that a timestamp
/// repeated in the file cannot make the server refuse the batch.
pub fn build_payload(rows: &Vec<QueuedObservation>) -> (res: Vec<ObservationPayloadRow>)
    ensures
        lists_in_time_order(res@, last_values(rows@)),
{
    let mut out: Vec<ObservationPayloadRow> = Vec::new();
    assert(rows@.take(0) =~= Seq::<QueuedObservation>::empty());
    for i in 0..rows.len()
        invariant
            lists_in_time_order(out@, last_values(rows@.take(i as int))),
    {
        assert(rows@.take(i + 1).drop_last() =~= rows@.take(i as int));
        assert(rows@.take(i + 1).last() == rows@[i as int]);
        let t = rows[i].timestamp;
        let ghost m = last_values(rows@.take(i as int));
        let ghost m2 = m.insert(t, rows@[i as int].value@);
        let ghost old_out = out@;
        // the first entry not earlier than `t`
        let mut p: usize = 0;
        while p < out.len() && dt_lt_exec(out[p].phenomenon_time, t)
            invariant
                p <= out@.len(),
                out@ == old_out,
                forall|k: int| 0 <= k < p ==> dt_lt((#[trigger] out@[k]).phenomenon_time, t),
            decreases out@.len() - p,
        {
            p = p + 1;
        }
        let v = rows[i].value.clone();
        if p < out.len() && out[p].phenomenon_time == t {
            out.remove(p);
            out.insert(p, ObservationPayloadRow { phenomenon_time: t, result: v });
            proof {
                assert forall|k: int| 0 <= k < out@.len() implies m2.contains_key((#[trigger] out@[k]).phenomenon_time)
                    && m2[out@[k].phenomenon_time] == out@[k].result@ by {
                    if k != p {
                        assert(out@[k] == old_out[k]);
                        assert(old_out[k].phenomenon_time != t) by {
                            if k < p {
                            } else {
                                assert(dt_lt(old_out[p as int].phenomenon_time, old_out[k].phenomenon_time));
                            }
                        }
                    }
                }
                assert forall|tt: UtcDateTime| m2.contains_key(tt) implies exists|k: int| 0 <= k < out@.len() && (#[trigger] out@[k]).phenomenon_time == tt by {
                    if tt == t {
                        assert(out@[p as int].phenomenon_time == tt);
                    } else {
                        let k = choose|k: int| 0 <= k < old_out.len() && (#[trigger] old_out[k]).phenomenon_time == tt;
                        assert(out@[k].phenomenon_time == tt);
                    }
                }
                assert forall|a: int, b: int| 0 <= a < b < out@.len() implies dt_lt(
                    (#[trigger] out@[a]).phenomenon_time,
                    (#[trigger] out@[b]).phenomenon_time,
                ) by {
                    assert(dt_lt(old_out[a].phenomenon_time, old_out[b].phenomenon_time));
                }
            }
        } else {
            out.insert(p, ObservationPayloadRow { phenomenon_time: t, result: v });
            proof {
                assert forall|k: int| 0 <= k < out@.len() implies m2.contains_key((#[trigger] out@[k]).phenomenon_time)
                    && m2[out@[k].phenomenon_time] == out@[k].result@ by {
                    if k < p {
                        assert(out@[k] == old_out[k]);
                    } else if k > p {
                        assert(out@[k] == old_out[k - 1]);
                        if p < old_out.len() {
                            assert(old_out[p as int].phenomenon_time != t);
                            assert(!dt_lt(old_out[p as int].phenomenon_time, t));
                            if k - 1 > p {
                                assert(dt_lt(old_out[p as int].phenomenon_time, old_out[k - 1].phenomenon_time));
                            }
                        }
                    }
                }
                assert forall|tt: UtcDateTime| m2.contains_key(tt) implies exists|k: int| 0 <= k < out@.len() && (#[trigger] out@[k]).phenomenon_time == tt by {
                    if tt == t {
                        assert(out@[p as int].phenomenon_time == tt);
                    } else {
                        let k = choose|k: int| 0 <= k < old_out.len() && (#[trigger] old_out[k]).phenomenon_time == tt;
                        if k < p {
                            assert(out@[k].phenomenon_time == tt);
                        } else {
                            assert(out@[k + 1].phenomenon_time == tt);
                        }
                    }
                }
                assert forall|a: int, b: int| 0 <= a < b < out@.len() implies dt_lt(
                    (#[trigger] out@[a]).phenomenon_time,
                    (#[trigger] out@[b]).phenomenon_time,
                ) by {
                    if p < old_out.len() {
                        assert(!dt_lt(old_out[p as int].phenomenon_time, t));
                        assert(old_out[p as int].phenomenon_time != t);
                    }
                    if b < p {
                        assert(dt_lt(old_out[a].phenomenon_time, old_out[b].phenomenon_time));
                    } else if b == p {
                        assert(out@[a] == old_out[a]);
                    } else if a < p {
                        assert(out@[b] == old_out[b - 1]);
                        if b - 1 > p {
                            assert(dt_lt(old_out[p as int].phenomenon_time, old_out[b - 1].phenomenon_time));
                        }
                    } else if a == p {
                        assert(out@[b] == old_out[b - 1]);
                        if b - 1 > p {
                            assert(dt_lt(old_out[p as int].phenomenon_time, old_out[b - 1].phenomenon_time));
                        }
                    } else {
                        assert(dt_lt(old_out[a - 1].phenomenon_time, old_out[b - 1].phenomenon_time));
                    }
                }
            }
        }
    }
    assert(rows@.take(rows@.len() as int) =~= rows@);
    out
}

// ---------------------------------------------------------------------------
// Batches
// ---------------------------------------------------------------------------
/// Observations share a batch when they go to the same account on the same
/// server and to the same datastream.
#[derive(Debug, PartialEq, Eq)]
pub struct BatchKey {
    pub server_signature: String,
    pub datastream_id: String,
}

/// The account a server configuration uploads as: its auth type, URL,
/// workspace and trimmed credential.
pub open spec fn server_signature(server: crate::models::ServerConfigView) -> Seq<char> {
    crate::hydroserver::auth_type_name(server.auth_type) + "|"@ + server.url + "|"@
        + server.workspace_id + "|"@ + crate::hydroserver::credential(server)
}

pub open spec fn batch_key_of(item: QueuedObservation) -> (Seq<char>, Seq<char>) {
    (server_signature(item.context.server@), item.context.datastream_id@)
}

impl BatchKey {
    pub fn from(item: &QueuedObservation) -> (res: BatchKey)
        ensures
            (res.server_signature@, res.datastream_id@) == batch_key_of(*item),
    {
        let server = &item.context.server;
        let mut signature = String::new();
        append_str(&mut signature, crate::hydroserver::auth_type_label(server.auth_type));
        append_str(&mut signature, "|");
        append_str(&mut signature, server.url.as_str());
        append_str(&mut signature, "|");
        append_str(&mut signature, server.workspace_id.as_str());
        append_str(&mut signature, "|");
        let credential = crate::hydroserver::credential_of(server);
        append_str(&mut signature, credential.as_str());
        assert(signature@ =~= server_signature(item.context.server@));
        BatchKey { server_signature: signature, datastream_id: item.context.datastream_id.clone() }
    }
}

/// Observations of one batch waiting to be sent.
pub struct PendingBatch {
    pub key: BatchKey,
    pub rows: Vec<QueuedObservation>,
}

pub open spec fn batch_view(b: PendingBatch) -> ((Seq<char>, Seq<char>), Seq<QueuedObservation>) {
    ((b.key.server_signature@, b.key.datastream_id@), b.rows@)
}

pub open spec fn batches_view(bs: Seq<PendingBatch>) -> Seq<((Seq<char>, Seq<char>), Seq<QueuedObservation>)> {
    bs.map_values(|b: PendingBatch| batch_view(b))
}

pub open spec fn batch_index(bs: Seq<((Seq<char>, Seq<char>), Seq<QueuedObservation>)>, key: (Seq<char>, Seq<char>)) -> int
    decreases bs.len(),
{
    if bs.len() == 0 {
        0
    } else if bs[0].0 == key {
        0
    } else {
        1 + batch_index(bs.drop_first(), key)
    }
}

proof fn lemma_batch_index(bs: Seq<((Seq<char>, Seq<char>), Seq<QueuedObservation>)>, key: (Seq<char>, Seq<char>), j: int)
    requires
        0 <= j <= bs.len(),
        forall|i: int| 0 <= i < j ==> (#[trigger] bs[i]).0 != key,
        j < bs.len() ==> bs[j].0 == key,
    ensures
        batch_index(bs, key) == j,
    decreases bs.len(),
{
    if bs.len() > 0 && j > 0 {
        assert forall|i: int| 0 <= i < j - 1 implies (#[trigger] bs.drop_first()[i]).0 != key by {
            assert(bs.drop_first()[i] == bs[i + 1]);
        }
        assert(bs[0].0 != key);
        lemma_batch_index(bs.drop_first(), key, j - 1);
    }
}

proof fn lemma_batch_index_before(bs: Seq<((Seq<char>, Seq<char>), Seq<QueuedObservation>)>, key: (Seq<char>, Seq<char>))
    ensures
        forall|j: int| 0 <= j < batch_index(bs, key) && j < bs.len() ==> (#[trigger] bs[j]).0 != key,
    decreases bs.len(),
{
    if bs.len() > 0 && bs[0].0 != key {
        lemma_batch_index_before(bs.drop_first(), key);
        assert forall|j: int| 0 <= j < batch_index(bs, key) && j < bs.len() implies (#[trigger] bs[j]).0 != key by {
            if j > 0 {
                assert(bs[j] == bs.drop_first()[j - 1]);
            }
        }
    }
}

proof fn lemma_batch_index_props(bs: Seq<((Seq<char>, Seq<char>), Seq<QueuedObservation>)>, key: (Seq<char>, Seq<char>))
    ensures
        0 <= batch_index(bs, key) <= bs.len(),
        batch_index(bs, key) < bs.len() ==> bs[batch_index(bs, key)].0 == key,
    decreases bs.len(),
{
    if bs.len() > 0 && bs[0].0 != key {
        lemma_batch_index_props(bs.drop_first(), key);
        if batch_index(bs, key) < bs.len() {
            assert(bs[batch_index(bs, key)] == bs.drop_first()[batch_index(bs, key) - 1]);
        }
    }
}

/// The batches being filled, at most one per key, none of them full.
pub struct PendingBatches {
    batches: Vec<PendingBatch>,
}

impl View for PendingBatches {
    type V = Seq<((Seq<char>, Seq<char>), Seq<QueuedObservation>)>;

    closed spec fn view(&self) -> Seq<((Seq<char>, Seq<char>), Seq<QueuedObservation>)> {
        batches_view(self.batches@)
    }
}

/// No two batches share a key.
pub open spec fn batch_keys_distinct(bs: Seq<((Seq<char>, Seq<char>), Seq<QueuedObservation>)>) -> bool {
    forall|i: int, j: int| 0 <= i < j < bs.len() ==> bs[i].0 != bs[j].0
}

/// Every batch holds fewer rows than a full batch.
pub open spec fn none_full(bs: Seq<((Seq<char>, Seq<char>), Seq<QueuedObservation>)>) -> bool {
    forall|i: int| 0 <= i < bs.len() ==> (#[trigger] bs[i]).1.len() < BATCH_SIZE
}

impl PendingBatches {
    #[verifier::type_invariant]
    spec fn keys_are_distinct(self) -> bool {
        batch_keys_distinct(batches_view(self.batches@))
    }

    pub fn new() -> (res: PendingBatches)
        ensures
            res@ == Seq::<((Seq<char>, Seq<char>), Seq<QueuedObservation>)>::empty(),
            batch_keys_distinct(res@),
    {
        let batches: Vec<PendingBatch> = Vec::new();
        assert(batches_view(batches@) =~= Seq::<((Seq<char>, Seq<char>), Seq<QueuedObservation>)>::empty());
        let res = PendingBatches { batches };
        assert(res@ =~= Seq::<((Seq<char>, Seq<char>), Seq<QueuedObservation>)>::empty());
        res
    }

    pub fn is_empty(&self) -> (res: bool)
        ensures
            res == (self@.len() == 0),
    {
        self.batches.len() == 0
    }

    fn find(&self, key: &BatchKey) -> (res: usize)
        ensures
            res == batch_index(self@, (key.server_signature@, key.datastream_id@)),
            res <= self@.len(),
    {
        let ghost k = (key.server_signature@, key.datastream_id@);
        let mut i: usize = 0;
        while i < self.batches.len()
            invariant
                i <= self.batches@.len(),
                k == (key.server_signature@, key.datastream_id@),
                forall|j: int| 0 <= j < i ==> (#[trigger] self@[j]).0 != k,
            decreases self.batches@.len() - i,
        {
            assert(self@[i as int] == batch_view(self.batches@[i as int]));
            if crate::text::str_eq(self.batches[i].key.server_signature.as_str(), key.server_signature.as_str())
                && crate::text::str_eq(self.batches[i].key.datastream_id.as_str(), key.datastream_id.as_str()) {
                proof {
                    lemma_batch_index(self@, k, i as int);
                }
                return i;
            }
            i = i + 1;
        }
        proof {
            lemma_batch_index(self@, k, i as int);
        }
        i
    }

    /// Adds an observation to the batch of its key, opening one if needed;
    /// a batch that reaches `BATCH_SIZE` rows leaves and is returned to be
    /// sent.
    pub fn add(&mut self, item: QueuedObservation) -> (res: Option<PendingBatch>)
        ensures
            ({
                let key = batch_key_of(item);
                let i = batch_index(old(self)@, key);
                if i < old(self)@.len() {
                    let rows = old(self)@[i].1.push(item);
                    if rows.len() >= BATCH_SIZE {
                        &&& res matches Some(b) && batch_view(b) == (key, rows)
                        &&& final(self)@ == old(self)@.remove(i)
                    } else {
                        &&& res is None
                        &&& final(self)@ == old(self)@.update(i, (key, rows))
                    }
                } else {
                    &&& res is None
                    &&& final(self)@ == old(self)@.push((key, seq![item]))
                }
            }),
            batch_keys_distinct(final(self)@),
    {
        proof {
            use_type_invariant(&*self);
        }
        let ghost old_view = self@;
        let ghost it = item;
        let key = BatchKey::from(&item);
        let i = self.find(&key);
        proof {
            lemma_batch_index_props(old_view, batch_key_of(it));
            lemma_batch_index_before(old_view, batch_key_of(it));
        }
        let mut batches: Vec<PendingBatch> = Vec::new();
        std::mem::swap(&mut batches, &mut self.batches);
        if i < batches.len() {
            let mut batch = batches.remove(i);
            assert(batch_view(batch) == old_view[i as int]);
            batch.rows.push(item);
            if batch.rows.len() >= BATCH_SIZE {
                assert(batches_view(batches@) =~= old_view.remove(i as int));
                assert(batch_keys_distinct(batches_view(batches@))) by {
                    assert forall|a: int, b: int| 0 <= a < b < batches@.len() implies batches_view(batches@)[a].0
                        != batches_view(batches@)[b].0 by {
                        let oa = if a < i { a } else { a + 1 };
                        let ob = if b < i { b } else { b + 1 };
                        assert(batches_view(batches@)[a] == old_view[oa]);
                        assert(batches_view(batches@)[b] == old_view[ob]);
                    }
                }
                self.batches = batches;
                return Some(batch);
            }
            batches.insert(i, batch);
            assert(batches_view(batches@) =~= old_view.update(i as int, (batch_key_of(it), old_view[i as int].1.push(it))));
            assert(batch_keys_distinct(batches_view(batches@))) by {
                assert forall|a: int, b: int| 0 <= a < b < batches@.len() implies batches_view(batches@)[a].0
                    != batches_view(batches@)[b].0 by {
                    assert(batches_view(batches@)[a].0 == old_view[a].0);
                    assert(batches_view(batches@)[b].0 == old_view[b].0);
                }
            }
            self.batches = batches;
            None
        } else {
            let mut rows: Vec<QueuedObservation> = Vec::new();
            rows.push(item);
            batches.push(PendingBatch { key, rows });
            assert(batches_view(batches@) =~= old_view.push((batch_key_of(it), seq![it])));
            assert(batch_keys_distinct(batches_view(batches@))) by {
                assert forall|a: int, b: int| 0 <= a < b < batches@.len() implies batches_view(batches@)[a].0
                    != batches_view(batches@)[b].0 by {
                    if b == old_view.len() {
                        assert(old_view[a].0 != batch_key_of(it));
                    }
                }
            }
            self.batches = batches;
            None
        }
    }

    /// Takes every batch out, to be sent.
    pub fn drain(&mut self) -> (res: Vec<PendingBatch>)
        ensures
            batches_view(res@) == old(self)@,
            final(self)@.len() == 0,
    {
        let mut taken: Vec<PendingBatch> = Vec::new();
        assert(batches_view(taken@) =~= Seq::<((Seq<char>, Seq<char>), Seq<QueuedObservation>)>::empty());
        std::mem::swap(&mut taken, &mut self.batches);
        assert(self@ =~= Seq::<((Seq<char>, Seq<char>), Seq<QueuedObservation>)>::empty());
        taken
    }
}

/// Adding an observation never leaves a full batch waiting.
pub proof fn lemma_add_keeps_batches_below_size(
    bs: Seq<((Seq<char>, Seq<char>), Seq<QueuedObservation>)>,
    item: QueuedObservation,
)
    requires
        none_full(bs),
    ensures
        ({
            let key = batch_key_of(item);
            let i = batch_index(bs, key);
            let after = if i < bs.len() {
                if bs[i].1.push(item).len() >= BATCH_SIZE {
                    bs.remove(i)
                } else {
                    bs.update(i, (key, bs[i].1.push(item)))
                }
            } else {
                bs.push((key, seq![item]))
            };
            none_full(after)
        }),
{
    let key = batch_key_of(item);
    let i = batch_index(bs, key);
    lemma_batch_index_props(bs, key);
    if i < bs.len() {
        let rows = bs[i].1.push(item);
        if rows.len() >= BATCH_SIZE {
            let after = bs.remove(i);
            assert forall|k: int| 0 <= k < after.len() implies (#[trigger] after[k]).1.len() < BATCH_SIZE by {
                if k < i {
                    assert(after[k] == bs[k]);
                } else {
                    assert(after[k] == bs[k + 1]);
                }
            }
        }
    }
}

/// Every row waiting in `bs`, counted with multiplicity.
pub open spec fn waiting_rows(bs: Seq<((Seq<char>, Seq<char>), Seq<QueuedObservation>)>) -> Multiset<
    QueuedObservation,
>
    decreases bs.len(),
{
    if bs.len() == 0 {
        Multiset::empty()
    } else {
        waiting_rows(bs.drop_last()).add(bs.last().1.to_multiset())
    }
}

proof fn lemma_waiting_rows_update(
    bs: Seq<((Seq<char>, Seq<char>), Seq<QueuedObservation>)>,
    i: int,
    x: ((Seq<char>, Seq<char>), Seq<QueuedObservation>),
)
    requires
        0 <= i < bs.len(),
    ensures
        waiting_rows(bs.update(i, x)).add(bs[i].1.to_multiset()) =~= waiting_rows(bs).add(x.1.to_multiset()),
    decreases bs.len(),
{
    broadcast use vstd::multiset::group_multiset_axioms;

    let d = bs.drop_last();
    let u = bs.update(i, x);
    assert(waiting_rows(bs) == waiting_rows(d).add(bs.last().1.to_multiset()));
    if i == bs.len() - 1 {
        assert(u.drop_last() =~= d);
        assert(u.last() == x);
        assert(waiting_rows(u) == waiting_rows(d).add(x.1.to_multiset()));
        assert(bs[i] == bs.last());
    } else {
        lemma_waiting_rows_update(d, i, x);
        assert(u.drop_last() =~= d.update(i, x));
        assert(u.last() == bs.last());
        assert(waiting_rows(u) == waiting_rows(d.update(i, x)).add(bs.last().1.to_multiset()));
        assert(d[i] == bs[i]);
        let a = waiting_rows(d.update(i, x));
        assert(a.add(bs[i].1.to_multiset()) == waiting_rows(d).add(x.1.to_multiset()));
    }
}

proof fn lemma_waiting_rows_remove(bs: Seq<((Seq<char>, Seq<char>), Seq<QueuedObservation>)>, i: int)
    requires
        0 <= i < bs.len(),
    ensures
        waiting_rows(bs.remove(i)).add(bs[i].1.to_multiset()) =~= waiting_rows(bs),
    decreases bs.len(),
{
    broadcast use vstd::multiset::group_multiset_axioms;

    if i == bs.len() - 1 {
        assert(bs.remove(i) =~= bs.drop_last());
    } else {
        lemma_waiting_rows_remove(bs.drop_last(), i);
        assert(bs.remove(i).drop_last() =~= bs.drop_last().remove(i));
        assert(bs.remove(i).last() == bs.last());
    }
}

/// Batching neither drops nor repeats an observation: after `add`, the rows
/// still waiting together with the rows of the batch handed out for upload
/// are the rows that waited before and the new one.
pub proof fn lemma_add_keeps_every_row(bs: Seq<((Seq<char>, Seq<char>), Seq<QueuedObservation>)>, item: QueuedObservation)
    ensures
        ({
            let key = batch_key_of(item);
            let i = batch_index(bs, key);
            let (after, handed_out) = if i < bs.len() {
                if bs[i].1.push(item).len() >= BATCH_SIZE {
                    (bs.remove(i), bs[i].1.push(item).to_multiset())
                } else {
                    (bs.update(i, (key, bs[i].1.push(item))), Multiset::empty())
                }
            } else {
                (bs.push((key, seq![item])), Multiset::empty())
            };
            waiting_rows(after).add(handed_out) =~= waiting_rows(bs).insert(item)
        }),
{
    broadcast use vstd::seq_lib::group_to_multiset_ensures, vstd::multiset::group_multiset_axioms;

    let key = batch_key_of(item);
    let i = batch_index(bs, key);
    lemma_batch_index_props(bs, key);
    let w = waiting_rows(bs);
    if i < bs.len() {
        let rows = bs[i].1.push(item);
        let bi = bs[i].1.to_multiset();
        assert(rows.to_multiset() =~= bi.insert(item));
        if rows.len() >= BATCH_SIZE {
            lemma_waiting_rows_remove(bs, i);
            let r = waiting_rows(bs.remove(i));
            assert(r.add(bi) == w);
            assert forall|v: QueuedObservation| #[trigger] r.add(bi.insert(item)).count(v) == w.insert(item).count(v) by {
                assert(r.add(bi).count(v) == w.count(v));
            }
            assert(r.add(rows.to_multiset()) =~= w.insert(item));
        } else {
            lemma_waiting_rows_update(bs, i, (key, rows));
            let u = waiting_rows(bs.update(i, (key, rows)));
            assert(u.add(bi) == w.add(bi.insert(item)));
            assert forall|v: QueuedObservation| #[trigger] u.add(Multiset::empty()).count(v) == w.insert(item).count(v) by {
                assert(u.add(bi).count(v) == w.add(bi.insert(item)).count(v));
            }
            assert(u.add(Multiset::empty()) =~= w.insert(item));
        }
    } else {
        let p = bs.push((key, seq![item]));
        assert(p.drop_last() =~= bs);
        assert(seq![item] =~= Seq::<QueuedObservation>::empty().push(item));
        assert(Seq::<QueuedObservation>::empty().to_multiset() =~= Multiset::empty());
        assert(seq![item].to_multiset() =~= Multiset::<QueuedObservation>::empty().insert(item));
        assert(waiting_rows(p) == w.add(seq![item].to_multiset()));
        assert(waiting_rows(p).add(Multiset::empty()) =~= w.insert(item));
    }
}

// ---------------------------------------------------------------------------
// What an upload tells each job
// ---------------------------------------------------------------------------
/// What the rows of one job in an uploaded batch reached.
#[derive(Debug, PartialEq, Eq)]
pub struct JobUploadSummary {
    pub job_id: String,
    pub max_timestamp: UtcDateTime,
    pub max_row_index: u64,
    pub observation_count: usize,
}

pub struct JobUploadSummaryView {
    pub job_id: Seq<char>,
    pub max_timestamp: UtcDateTime,
    pub max_row_index: u64,
    pub observation_count: int,
}

impl View for JobUploadSummary {
    type V = JobUploadSummaryView;

    open spec fn view(&self) -> JobUploadSummaryView {
        JobUploadSummaryView {
            job_id: self.job_id@,
            max_timestamp: self.max_timestamp,
            max_row_index: self.max_row_index,
            observation_count: self.observation_count as int,
        }
    }
}

pub open spec fn summaries_view(s: Seq<JobUploadSummary>) -> Seq<JobUploadSummaryView> {
    s.map_values(|x: JobUploadSummary| x@)
}

pub open spec fn summary_keys(s: Seq<JobUploadSummaryView>) -> Seq<Seq<char>> {
    s.map_values(|x: JobUploadSummaryView| x.job_id)
}

/// One summary per job of `rows`, in order of first appearance: the latest
/// timestamp, the highest row index and the number of rows of that job.
pub open spec fn summarized(rows: Seq<QueuedObservation>) -> Seq<JobUploadSummaryView>
    decreases rows.len(),
{
    if rows.len() == 0 {
        Seq::empty()
    } else {
        let s = summarized(rows.drop_last());
        let r = rows.last();
        let i = find_key(summary_keys(s), r.context.job_id@);
        if i < s.len() {
            s.update(
                i,
                JobUploadSummaryView {
                    job_id: s[i].job_id,
                    max_timestamp: if dt_lt(s[i].max_timestamp, r.timestamp) {
                        r.timestamp
                    } else {
                        s[i].max_timestamp
                    },
                    max_row_index: if r.row_index > s[i].max_row_index {
                        r.row_index
                    } else {
                        s[i].max_row_index
                    },
                    observation_count: s[i].observation_count + 1,
                },
            )
        } else {
            s.push(
                JobUploadSummaryView {
                    job_id: r.context.job_id@,
                    max_timestamp: r.timestamp,
                    max_row_index: r.row_index,
                    observation_count: 1,
                },
            )
        }
    }
}

fn find_summary(out: &Vec<JobUploadSummary>, id: &str) -> (res: usize)
    ensures
        res == find_key(summary_keys(summaries_view(out@)), id@),
        res <= out@.len(),
{
    let ghost keys = summary_keys(summaries_view(out@));
    let mut i: usize = 0;
    while i < out.len()
        invariant
            i <= out@.len(),
            keys == summary_keys(summaries_view(out@)),
            keys.len() == out@.len(),
            forall|j: int| 0 <= j < i ==> keys[j] != id@,
        decreases out@.len() - i,
    {
        assert(keys[i as int] == out@[i as int].job_id@);
        if crate::text::str_eq(out[i].job_id.as_str(), id) {
            proof {
                lemma_find_key_unique(keys, id@, i as int);
            }
            return i;
        }
        i = i + 1;
    }
    proof {
        lemma_find_key_unique(keys, id@, i as int);
    }
    i
}

/// Summarizes the rows of an uploaded batch by job (see `summarized`).
pub fn summarize_rows(rows: &Vec<QueuedObservation>) -> (res: Vec<JobUploadSummary>)
    ensures
        summaries_view(res@) == summarized(rows@),
{
    let mut out: Vec<JobUploadSummary> = Vec::new();
    assert(rows@.take(0) =~= Seq::<QueuedObservation>::empty());
    assert(summaries_view(out@) =~= Seq::<JobUploadSummaryView>::empty());
    for i in 0..rows.len()
        invariant
            summaries_view(out@) == summarized(rows@.take(i as int)),
            out@.len() <= i,
            forall|k: int| 0 <= k < out@.len() ==> (#[trigger] out@[k]).observation_count <= i,
    {
        assert(rows@.take(i + 1).drop_last() =~= rows@.take(i as int));
        assert(rows@.take(i + 1).last() == rows@[i as int]);
        let row = &rows[i];
        let k = find_summary(&out, row.context.job_id.as_str());
        if k < out.len() {
            let mut entry = out.remove(k);
            if dt_lt_exec(entry.max_timestamp, row.timestamp) {
                entry.max_timestamp = row.timestamp;
            }
            if row.row_index > entry.max_row_index {
                entry.max_row_index = row.row_index;
            }
            entry.observation_count = entry.observation_count + 1;
            out.insert(k, entry);
        } else {
            out.push(
                JobUploadSummary {
                    job_id: row.context.job_id.clone(),
                    max_timestamp: row.timestamp,
                    max_row_index: row.row_index,
                    observation_count: 1,
                },
            );
        }
        assert(summaries_view(out@) =~= summarized(rows@.take(i + 1)));
    }
    assert(rows@.take(rows@.len() as int) =~= rows@);
    out
}

/// Summarizes the rows of a batch by job (see `summarized`).
pub fn summarize_batch(batch: &PendingBatch) -> (res: Vec<JobUploadSummary>)
    ensures
        summaries_view(res@) == summarized(batch.rows@),
{
    summarize_rows(&batch.rows)
}

/// The success line written to a job's log after an upload.
pub open spec fn msg_loaded(count: nat, datastream_name: Seq<char>) -> Seq<char> {
    "Loaded "@ + crate::text::decimal_string(count) + " observation(s) to datastream "@ + datastream_name
        + "."@
}

pub fn loaded_message(count: usize, datastream_name: &str) -> (res: String)
    ensures
        res@ == msg_loaded(count as nat, datastream_name@),
{
    let mut out = String::new();
    append_str(&mut out, "Loaded ");
    let digits = u64_to_decimal(count as u64);
    append_str(&mut out, digits.as_str());
    append_str(&mut out, " observation(s) to datastream ");
    append_str(&mut out, datastream_name);
    append_str(&mut out, ".");
    assert(out@ =~= msg_loaded(count as nat, datastream_name@));
    out
}

// ---------------------------------------------------------------------------
// Recording the outcome of an upload
// ---------------------------------------------------------------------------
/// The store after recording, job by job in the order of `summaries`, that
/// datastream `datastream_id` uploaded each job's rows.
pub open spec fn store_after_successes(
    s: ConfigStoreView,
    summaries: Seq<JobUploadSummaryView>,
    datastream_id: Seq<char>,
    now: UtcDateTime,
) -> ConfigStoreView
    decreases summaries.len(),
{
    if summaries.len() == 0 {
        s
    } else {
        let u = summaries.last();
        store_after_success(
            store_after_successes(s, summaries.drop_last(), datastream_id, now),
            u.job_id,
            datastream_id,
            u.max_row_index,
            u.max_timestamp,
            now,
        )
    }
}

/// The store after recording, job by job, that the upload of datastream
/// `datastream_id` failed with `message`.
pub open spec fn store_after_failures(
    s: ConfigStoreView,
    summaries: Seq<JobUploadSummaryView>,
    datastream_id: Seq<char>,
    message: Seq<char>,
    now: UtcDateTime,
) -> ConfigStoreView
    decreases summaries.len(),
{
    if summaries.len() == 0 {
        s
    } else {
        store_after_failure(
            store_after_failures(s, summaries.drop_last(), datastream_id, message, now),
            summaries.last().job_id,
            datastream_id,
            message,
            now,
        )
    }
}

/// Records that the rows of datastream `datastream_id` (named
/// `datastream_name`) were stored by the server: each job's cursor for it
/// moves up to that job's rows. Gives, per job, the line for its log.
pub fn record_upload_success(
    store: &mut ConfigStore,
    datastream_id: &str,
    datastream_name: &str,
    rows: &Vec<QueuedObservation>,
    now: UtcDateTime,
) -> (res: Vec<(String, String)>)
    ensures
        final(store)@ == store_after_successes(old(store)@, summarized(rows@), datastream_id@, now),
        res@.len() == summarized(rows@).len(),
        forall|k: int| 0 <= k < res@.len() ==> (#[trigger] res@[k]).0@ == summarized(rows@)[k].job_id && res@[k].1@
            == msg_loaded(summarized(rows@)[k].observation_count as nat, datastream_name@),
{
    let summaries = summarize_rows(rows);
    let ghost sv = summaries_view(summaries@);
    let ghost start = store@;
    let mut logs: Vec<(String, String)> = Vec::new();
    assert(sv.take(0) =~= Seq::<JobUploadSummaryView>::empty());
    for i in 0..summaries.len()
        invariant
            sv == summaries_view(summaries@),
            sv == summarized(rows@),
            store@ == store_after_successes(start, sv.take(i as int), datastream_id@, now),
            logs@.len() == i,
            forall|k: int| 0 <= k < i ==> (#[trigger] logs@[k]).0@ == sv[k].job_id && logs@[k].1@ == msg_loaded(
                sv[k].observation_count as nat,
                datastream_name@,
            ),
    {
        let u = &summaries[i];
        assert(sv.take(i + 1).drop_last() =~= sv.take(i as int));
        assert(sv.take(i + 1).last() == u@);
        store.record_datastream_success(u.job_id.as_str(), datastream_id, u.max_row_index, u.max_timestamp, now);
        logs.push((u.job_id.clone(), loaded_message(u.observation_count, datastream_name)));
    }
    assert(sv.take(sv.len() as int) =~= sv);
    logs
}

/// Records that the upload of the rows of datastream `datastream_id` failed
/// with `message`: each job's cursor for it keeps its position and takes the
/// error. Gives the jobs whose logs take the message.
pub fn record_upload_failure(
    store: &mut ConfigStore,
    datastream_id: &str,
    rows: &Vec<QueuedObservation>,
    message: &str,
    now: UtcDateTime,
) -> (res: Vec<String>)
    ensures
        final(store)@ == store_after_failures(old(store)@, summarized(rows@), datastream_id@, message@, now),
        res@.len() == summarized(rows@).len(),
        forall|k: int| 0 <= k < res@.len() ==> (#[trigger] res@[k])@ == summarized(rows@)[k].job_id,
{
    let summaries = summarize_rows(rows);
    let ghost sv = summaries_view(summaries@);
    let ghost start = store@;
    let mut jobs: Vec<String> = Vec::new();
    assert(sv.take(0) =~= Seq::<JobUploadSummaryView>::empty());
    for i in 0..summaries.len()
        invariant
            sv == summaries_view(summaries@),
            sv == summarized(rows@),
            store@ == store_after_failures(start, sv.take(i as int), datastream_id@, message@, now),
            jobs@.len() == i,
            forall|k: int| 0 <= k < i ==> (#[trigger] jobs@[k])@ == sv[k].job_id,
    {
        let u = &summaries[i];
        assert(sv.take(i + 1).drop_last() =~= sv.take(i as int));
        assert(sv.take(i + 1).last() == u@);
        store.record_datastream_failure(u.job_id.as_str(), datastream_id, message, now);
        jobs.push(u.job_id.clone());
    }
    assert(sv.take(sv.len() as int) =~= sv);
    jobs
}

// ---------------------------------------------------------------------------
// Conflicts
// ---------------------------------------------------------------------------
/// The rows at or before `watermark`, in order.
pub open spec fn at_or_before(rows: Seq<QueuedObservation>, watermark: UtcDateTime) -> Seq<QueuedObservation>
    decreases rows.len(),
{
    if rows.len() == 0 {
        rows
    } else if dt_le(rows.last().timestamp, watermark) {
        at_or_before(rows.drop_last(), watermark).push(rows.last())
    } else {
        at_or_before(rows.drop_last(), watermark)
    }
}

/// The rows after `watermark`, in order.
pub open spec fn after(rows: Seq<QueuedObservation>, watermark: UtcDateTime) -> Seq<QueuedObservation>
    decreases rows.len(),
{
    if rows.len() == 0 {
        rows
    } else if dt_le(rows.last().timestamp, watermark) {
        after(rows.drop_last(), watermark)
    } else {
        after(rows.drop_last(), watermark).push(rows.last())
    }
}

/// Splits a conflicting batch at the server's latest stored time: rows at or
/// before it are stored already, the others still have to be sent.
pub fn partition_by_watermark(rows: Vec<QueuedObservation>, watermark: UtcDateTime) -> (res: (
    Vec<QueuedObservation>,
    Vec<QueuedObservation>,
))
    ensures
        res.0@ == at_or_before(rows@, watermark),
        res.1@ == after(rows@, watermark),
{
    let ghost all = rows@;
    let mut source = rows;
    let mut confirmed: Vec<QueuedObservation> = Vec::new();
    let mut pending: Vec<QueuedObservation> = Vec::new();
    let n = source.len();
    let mut i: usize = 0;
    assert(all.take(0) =~= Seq::<QueuedObservation>::empty());
    while i < n
        invariant
            0 <= i <= n,
            all.len() == n,
            source@.len() == n - i,
            forall|k: int| 0 <= k < n - i ==> #[trigger] source@[k] == all[i + k],
            confirmed@ == at_or_before(all.take(i as int), watermark),
            pending@ == after(all.take(i as int), watermark),
        decreases n - i,
    {
        assert(all.take(i + 1).drop_last() =~= all.take(i as int));
        assert(all.take(i + 1).last() == all[i as int]);
        let ghost rest = source@;
        let row = source.remove(0);
        assert(row == all[i as int]);
        if dt_le_exec(row.timestamp, watermark) {
            confirmed.push(row);
        } else {
            pending.push(row);
        }
        assert forall|k: int| 0 <= k < n - (i + 1) implies #[trigger] source@[k] == all[i + 1 + k] by {
            assert(source@[k] == rest[k + 1]);
        }
        i = i + 1;
    }
    assert(all.take(n as int) =~= all);
    (confirmed, pending)
}

/// What to do with a batch the server refused as conflicting.
pub enum ConflictPlan {
    /// Record this failure on the batch's rows, handed back.
    Fail(String, Vec<QueuedObservation>),
    /// Record the first rows as uploaded and send the second again.
    Split(Vec<QueuedObservation>, Vec<QueuedObservation>),
}

pub open spec fn msg_conflict_unconfirmed(error: Seq<char>) -> Seq<char> {
    "Upload conflicted and the server's stored range could not be confirmed: "@ + error
}

pub open spec fn msg_conflict_without_watermark() -> Seq<char> {
    "Upload conflicted but the server reports no stored observations to reconcile against."@
}

pub open spec fn msg_still_conflicted() -> Seq<char> {
    "Observations still conflicted after reconciling against the server."@
}

/// The failure recorded when the rows re-sent after a reconciliation conflict
/// again.
pub fn still_conflicted_message() -> (res: String)
    ensures
        res@ == msg_still_conflicted(),
{
    owned("Observations still conflicted after reconciling against the server.")
}

/// Reconciles a conflicting batch against the latest time the server reports
/// for the datastream: without that time the rows fail and no cursor moves;
/// with it the batch is split (see `partition_by_watermark`).
pub fn reconcile_plan(rows: Vec<QueuedObservation>, watermark: Result<Option<UtcDateTime>, String>) -> (res: ConflictPlan)
    ensures
        match watermark {
            Err(e) => res matches ConflictPlan::Fail(m, r) && m@ == msg_conflict_unconfirmed(e@) && r@ == rows@,
            Ok(None) => res matches ConflictPlan::Fail(m, r) && m@ == msg_conflict_without_watermark() && r@ == rows@,
            Ok(Some(w)) => res matches ConflictPlan::Split(c, p) && c@ == at_or_before(rows@, w) && p@
                == after(rows@, w),
        },
{
    match watermark {
        Err(e) => {
            let mut m = String::new();
            append_str(&mut m, "Upload conflicted and the server's stored range could not be confirmed: ");
            append_str(&mut m, e.as_str());
            assert(m@ =~= msg_conflict_unconfirmed(e@));
            ConflictPlan::Fail(m, rows)
        },
        Ok(None) => ConflictPlan::Fail(
            owned("Upload conflicted but the server reports no stored observations to reconcile against."),
            rows,
        ),
        Ok(Some(w)) => {
            let (c, p) = partition_by_watermark(rows, w);
            ConflictPlan::Split(c, p)
        },
    }
}

// ---------------------------------------------------------------------------
// Retries
// ---------------------------------------------------------------------------
/// The next step of an upload after an attempt.
#[derive(Debug, PartialEq, Eq)]
pub enum UploadStep {
    /// The server stored the batch.
    Accepted,
    /// The server refused the batch as conflicting; reconcile it.
    Conflict,
    /// Wait this many milliseconds (plus jitter) and try again.
    Retry(u64),
    /// Give up with this message.
    Fail(String),
}

/// Decides what follows attempt number `attempt` (from 0) given its outcome:
/// a conflict is handed to reconciliation, a retryable error is tried again
/// after `backoff_ms` while attempts remain, anything else ends the upload.
pub fn upload_step(attempt: usize, outcome: &Result<(), RequestError>, backoff_ms: u64) -> (res: UploadStep)
    ensures
        match outcome {
            Ok(()) => res == UploadStep::Accepted,
            Err(e) => if (e matches RequestError::Http { status: Some(s), .. } && *s == 409) {
                res == UploadStep::Conflict
            } else if (match e {
                RequestError::Connection | RequestError::Timeout => true,
                RequestError::Http { status: Some(s), .. } => 500 <= *s <= 599,
                _ => false,
            }) && attempt < MAX_RETRIES {
                res == UploadStep::Retry(backoff_ms)
            } else {
                res matches UploadStep::Fail(m) && m@ == match e {
                    RequestError::Connection => "Couldn't reach HydroServer."@,
                    RequestError::Timeout => "HydroServer request timed out."@,
                    RequestError::Http { message, .. } => message@,
                    RequestError::Other(message) => message@,
                }
            },
        },
{
    match outcome {
        Ok(()) => UploadStep::Accepted,
        Err(e) => if e.is_conflict() {
            UploadStep::Conflict
        } else if e.is_retryable() && attempt < MAX_RETRIES {
            UploadStep::Retry(backoff_ms)
        } else {
            UploadStep::Fail(e.message())
        },
    }
}

/// The wait before the retry after one that waited `backoff_ms`.
pub fn next_backoff(backoff_ms: u64) -> (res: u64)
    requires
        backoff_ms <= u64::MAX / 2,
    ensures
        res == 2 * backoff_ms,
{
    backoff_ms * 2
}

/// A jitter of up to a quarter of the wait, taken from the sub-second
/// nanoseconds of the clock: `base_ms` milliseconds times
/// `(nanos % 250) / 1000`, in nanoseconds.
pub fn jitter_nanos(base_ms: u64, subsec_nanos: u32) -> (res: u64)
    requires
        base_ms <= 1_000_000_000,
    ensures
        res == base_ms * (subsec_nanos % 250) * 1000,
        res * 4 <= base_ms * 1_000_000,
{
    let fraction = (subsec_nanos % 250) as u64;
    assert(base_ms * fraction <= 1_000_000_000 * 249) by (nonlinear_arith)
        requires
            base_ms <= 1_000_000_000,
            fraction < 250,
    ;
    assert(base_ms * fraction * 4 <= base_ms * 1000) by (nonlinear_arith)
        requires
            fraction < 250,
    ;
    base_ms * fraction * 1000
}

// ---------------------------------------------------------------------------
// Laws
// ---------------------------------------------------------------------------
/// The summary of each job covers every row of that job in the batch: its
/// row index and timestamp reach at least those of the row, so recording a
/// successful upload moves the job's cursor past every uploaded row.
pub proof fn lemma_summary_covers_rows(rows: Seq<QueuedObservation>)
    ensures
        forall|k: int| 0 <= k < rows.len() ==> {
            let s = summarized(rows);
            let i = find_key(summary_keys(s), (#[trigger] rows[k]).context.job_id@);
            &&& 0 <= i < s.len()
            &&& s[i].max_row_index >= rows[k].row_index
            &&& dt_le(rows[k].timestamp, s[i].max_timestamp)
        },
    decreases rows.len(),
{
    if rows.len() > 0 {
        let p = rows.drop_last();
        lemma_summary_covers_rows(p);
        let sp = summarized(p);
        let s = summarized(rows);
        let r = rows.last();
        let key = r.context.job_id@;
        let i = find_key(summary_keys(sp), key);
        crate::records::lemma_find_key(summary_keys(sp), key);
        if i < sp.len() {
            assert(summary_keys(s) =~= summary_keys(sp));
        } else {
            assert(summary_keys(s) =~= summary_keys(sp).push(key));
        }
        assert forall|k: int| 0 <= k < rows.len() implies {
            let i2 = find_key(summary_keys(s), (#[trigger] rows[k]).context.job_id@);
            &&& 0 <= i2 < s.len()
            &&& s[i2].max_row_index >= rows[k].row_index
            &&& dt_le(rows[k].timestamp, s[i2].max_timestamp)
        } by {
            let kk = rows[k].context.job_id@;
            crate::records::lemma_find_key(summary_keys(s), kk);
            if k == rows.len() - 1 {
                assert(rows[k] == r);
                if i < sp.len() {
                    lemma_find_key_unique(summary_keys(s), kk, i);
                } else {
                    lemma_find_key_unique(summary_keys(s), kk, sp.len() as int);
                }
            } else {
                assert(rows[k] == p[k]);
                let j = find_key(summary_keys(sp), kk);
                crate::records::lemma_find_key(summary_keys(sp), kk);
                lemma_find_key_unique(summary_keys(s), kk, j);
            }
        }
    }
}

/// Splitting at a watermark sends every row one way: rows at or before it
/// are confirmed, rows after it are pending, and none is lost.
pub proof fn lemma_partition_by_watermark(rows: Seq<QueuedObservation>, w: UtcDateTime)
    ensures
        at_or_before(rows, w).len() + after(rows, w).len() == rows.len(),
        forall|k: int| 0 <= k < at_or_before(rows, w).len() ==> dt_le((#[trigger] at_or_before(rows, w)[k]).timestamp, w),
        forall|k: int| 0 <= k < after(rows, w).len() ==> !dt_le((#[trigger] after(rows, w)[k]).timestamp, w),
    decreases rows.len(),
{
    if rows.len() > 0 {
        lemma_partition_by_watermark(rows.drop_last(), w);
        let c = at_or_before(rows.drop_last(), w);
        let p = after(rows.drop_last(), w);
        assert forall|k: int| 0 <= k < at_or_before(rows, w).len() implies dt_le((#[trigger] at_or_before(rows, w)[k]).timestamp, w) by {
            if k < c.len() {
                assert(at_or_before(rows, w)[k] == c[k]);
            }
        }
        assert forall|k: int| 0 <= k < after(rows, w).len() implies !dt_le((#[trigger] after(rows, w)[k]).timestamp, w) by {
            if k < p.len() {
                assert(after(rows, w)[k] == p[k]);
            }
        }
    }
}

} // verus!
