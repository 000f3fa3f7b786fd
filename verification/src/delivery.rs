//! The outbound delivery engine's decisions: who receives a delivery,
//! how per-recipient outcomes are classified, and when a failed delivery
//! is retried or given up.
use crate::audience::lemma_push_contains;
use crate::bytestr::{
    bytes_eq, clone_bytes, contains_bytes, is_prefix_of, lemma_deep_view_index, starts_with,
    str_to_bytes,
};
use crate::error::ApiError;
use vstd::prelude::*;

verus! {

/// How often one activity is attempted against its failing recipients
/// before the node gives up.
pub const MAX_DELIVERY_ATTEMPTS: u32 = 3;

/// How long a failed delivery rests before its next attempt, in
/// milliseconds: one hour.
pub const RETRY_DELAY_MS: u64 = 3600000;

/// The recipient list minus the signing actor, deduplicated with first
/// occurrences kept in order.
pub open spec fn delivery_targets(recipients: Seq<Seq<u8>>, actor_id: Seq<u8>) -> Seq<Seq<u8>>
    decreases recipients.len(),
{
    if recipients.len() == 0 {
        Seq::empty()
    } else {
        let d = delivery_targets(recipients.drop_last(), actor_id);
        if recipients.last() == actor_id || d.contains(recipients.last()) {
            d
        } else {
            d.push(recipients.last())
        }
    }
}

/// The delivery targets never include the signing actor's own URI, and
/// never repeat a recipient.
pub proof fn lemma_self_delivery_exclusion(recipients: Seq<Seq<u8>>, actor_id: Seq<u8>)
    ensures
        !delivery_targets(recipients, actor_id).contains(actor_id),
        forall|x: Seq<u8>|
            #[trigger] delivery_targets(recipients, actor_id).contains(x) == (x != actor_id
                && recipients.contains(x)),
    decreases recipients.len(),
{
    if recipients.len() > 0 {
        let dl = recipients.drop_last();
        lemma_self_delivery_exclusion(dl, actor_id);
        let d = delivery_targets(dl, actor_id);
        assert forall|x: Seq<u8>|
            #[trigger] delivery_targets(recipients, actor_id).contains(x) == (x != actor_id
                && recipients.contains(x)) by {
            crate::audience::lemma_drop_last_contains(recipients, x);
            if recipients.last() != actor_id && !d.contains(recipients.last()) {
                lemma_push_contains(d, recipients.last(), x);
            }
        }
        assert(!delivery_targets(recipients, actor_id).contains(actor_id));
    }
}

/// One delivery job: the serialized activity, the recipients still to
/// reach, the signing actor, its key material, and the content digest
/// computed once for the whole fan-out.
#[derive(Clone, Debug)]
pub struct DeliveryJob {
    pub activity: Vec<u8>,
    pub recipients: Vec<Vec<u8>>,
    pub actor_id: Vec<u8>,
    pub private_key_pem: Vec<u8>,
    pub digest: Vec<u8>,
}

/// Plans a delivery: drops the signing actor's own URI from the
/// recipient set and deduplicates what remains, so that no request is
/// ever issued to the sender itself and no recipient is hit twice.
pub fn prepare_delivery(
    activity: Vec<u8>,
    recipients: &Vec<Vec<u8>>,
    actor_id: Vec<u8>,
    private_key_pem: Vec<u8>,
    digest: Vec<u8>,
) -> (job: DeliveryJob)
    ensures
        job.activity@ == activity@,
        job.actor_id@ == actor_id@,
        job.private_key_pem@ == private_key_pem@,
        job.digest@ == digest@,
        job.recipients.deep_view() == delivery_targets(recipients.deep_view(), actor_id@),
{
    let mut targets: Vec<Vec<u8>> = Vec::new();
    let mut i: usize = 0;
    while i < recipients.len()
        invariant
            i <= recipients@.len(),
            targets.deep_view() == delivery_targets(
                recipients.deep_view().take(i as int),
                actor_id@,
            ),
        decreases recipients@.len() - i,
    {
        proof {
            lemma_deep_view_index(recipients, i as int);
            assert(recipients.deep_view().take(i + 1).drop_last() =~= recipients.deep_view().take(
                i as int,
            ));
            assert(recipients.deep_view().take(i + 1).last() == recipients.deep_view()[i as int]);
        }
        let is_self = bytes_eq(recipients[i].as_slice(), actor_id.as_slice());
        let seen = contains_bytes(&targets, recipients[i].as_slice());
        if !is_self && !seen {
            let c = clone_bytes(&recipients[i]);
            targets.push(c);
            proof {
                lemma_deep_view_index(&targets, targets@.len() - 1);
                assert(targets.deep_view() =~= delivery_targets(
                    recipients.deep_view().take(i + 1),
                    actor_id@,
                ));
            }
        }
        i += 1;
    }
    proof {
        assert(recipients.deep_view().take(recipients@.len() as int) =~= recipients.deep_view());
    }
    DeliveryJob { activity, recipients: targets, actor_id, private_key_pem, digest }
}

/// A deferred retry task: the delivery job that keeps failing, when it
/// was last tried, and how often it has been tried.
#[derive(Clone, Debug)]
pub struct FailedDelivery {
    pub activity: Vec<u8>,
    pub recipients: Vec<Vec<u8>>,
    pub actor_id: Vec<u8>,
    pub private_key_pem: Vec<u8>,
    pub digest: Vec<u8>,
    pub last_time_tried: u64,
    pub tried: u32,
}

/// Whether an attempt with this number may run at all: past the cap the
/// delivery is given up.
pub fn should_attempt(attempt_number: u32) -> (r: bool)
    ensures
        r == (attempt_number <= MAX_DELIVERY_ATTEMPTS),
{
    attempt_number <= MAX_DELIVERY_ATTEMPTS
}

/// The recipients whose delivery failed for a reason worth retrying: a
/// network-level failure, and nothing else.
pub fn retryable_recipients(outcomes: Vec<(Vec<u8>, Option<ApiError>)>) -> (r: Vec<Vec<u8>>)
    ensures
        r.deep_view() == retryable_of(outcomes.deep_view()),
{
    let mut out: Vec<Vec<u8>> = Vec::new();
    let mut i: usize = 0;
    let rest = outcomes;
    proof {
        assert(rest.deep_view().take(0int) =~= Seq::<(Seq<u8>, Option<ApiError>)>::empty());
        assert(retryable_of(rest.deep_view().take(0int)) =~= Seq::<Seq<u8>>::empty());
    }
    let ghost all = rest.deep_view();
    while i < rest.len()
        invariant
            i <= rest@.len(),
            all == rest.deep_view(),
            out.deep_view() == retryable_of(all.take(i as int)),
        decreases rest@.len() - i,
    {
        proof {
            lemma_outcomes_deep_view_index(&rest, i as int);
            assert(all.take(i + 1).drop_last() =~= all.take(i as int));
            assert(all.take(i + 1).last() == all[i as int]);
        }
        let retry = match &rest[i].1 {
            Option::Some(e) => e.is_network_failure(),
            Option::None => false,
        };
        if retry {
            let c = clone_bytes(&rest[i].0);
            out.push(c);
            proof {
                lemma_deep_view_index(&out, out@.len() - 1);
                assert(out.deep_view() =~= retryable_of(all.take(i + 1)));
            }
        }
        i += 1;
    }
    proof {
        assert(all.take(rest@.len() as int) =~= all);
    }
    out
}

/// The recipients of the outcomes that failed with a network error, in
/// order.
pub open spec fn retryable_of(s: Seq<(Seq<u8>, Option<ApiError>)>) -> Seq<Seq<u8>>
    decreases s.len(),
{
    if s.len() == 0 {
        Seq::empty()
    } else {
        retryable_of(s.drop_last()) + (if s.last().1 == Some(
            ApiError::FailedDeliveryDueToNetworkError,
        ) {
            seq![s.last().0]
        } else {
            Seq::<Seq<u8>>::empty()
        })
    }
}

/// The deep view of an outcome vector indexes to recipient views and
/// plain errors.
pub proof fn lemma_outcomes_deep_view_index(v: &Vec<(Vec<u8>, Option<ApiError>)>, i: int)
    requires
        0 <= i < v@.len(),
    ensures
        v.deep_view().len() == v@.len(),
        v.deep_view()[i].0 == v@[i].0@,
        v.deep_view()[i].1 == v@[i].1.deep_view(),
{
    assert(v.deep_view()[i].0 =~= v@[i].0@);
}

/// Collects the recipients that failed retryably into one deferred
/// retry record, owning the job's payload and key material; no record
/// is made when nothing is worth retrying.
pub fn make_failed_delivery(
    job: DeliveryJob,
    failed: Vec<Vec<u8>>,
    attempt_number: u32,
    now_ms: u64,
) -> (r: Option<FailedDelivery>)
    ensures
        failed@.len() == 0 ==> r is None,
        failed@.len() > 0 ==> (r matches Some(rec) && rec.activity@ == job.activity@
            && rec.recipients.deep_view() == failed.deep_view() && rec.actor_id@ == job.actor_id@
            && rec.private_key_pem@ == job.private_key_pem@ && rec.digest@ == job.digest@
            && rec.last_time_tried == now_ms && rec.tried == attempt_number),
{
    if failed.len() == 0 {
        None
    } else {
        Some(
            FailedDelivery {
                activity: job.activity,
                recipients: failed,
                actor_id: job.actor_id,
                private_key_pem: job.private_key_pem,
                digest: job.digest,
                last_time_tried: now_ms,
                tried: attempt_number,
            },
        )
    }
}

/// What the retry loop does with a popped record.
#[derive(Clone, Copy, Debug, PartialEq, Eq, Structural)]
pub enum RetryPlan {
    /// Give the record up for good: the attempt cap is reached.
    Drop,
    /// Attempt again, as attempt number `attempt_number`, after waiting
    /// `wait_ms` milliseconds.
    AttemptAfter { wait_ms: u64, attempt_number: u32 },
}

/// Decides what to do with a popped retry record: give it up once three
/// attempts have run, else wait out the rest of the hour since the last
/// attempt and run the next one.
/// What the retry loop decides for a popped record, as a mathematical
/// function: give up past the attempt cap, else run attempt `tried + 1`
/// once the rest of the hour since the last attempt has passed.
pub open spec fn spec_retry_plan(rec: FailedDelivery, now_ms: u64) -> RetryPlan {
    if rec.tried >= MAX_DELIVERY_ATTEMPTS {
        RetryPlan::Drop
    } else {
        RetryPlan::AttemptAfter {
            wait_ms: if rec.last_time_tried + RETRY_DELAY_MS > now_ms {
                (rec.last_time_tried + RETRY_DELAY_MS - now_ms) as u64
            } else {
                0u64
            },
            attempt_number: (rec.tried + 1) as u32,
        }
    }
}

/// Decides what to do with a popped retry record: give it up once three
/// attempts have run, else wait out the rest of the hour since the last
/// attempt and run the next one.
pub fn retry_plan(rec: &FailedDelivery, now_ms: u64) -> (r: RetryPlan)
    requires
        rec.last_time_tried + RETRY_DELAY_MS <= u64::MAX,
    ensures
        r == spec_retry_plan(*rec, now_ms),
{
    if rec.tried >= MAX_DELIVERY_ATTEMPTS {
        return RetryPlan::Drop;
    }
    let attempt_number = rec.tried + 1;
    let wait_ms = if rec.last_time_tried + RETRY_DELAY_MS > now_ms {
        rec.last_time_tried + RETRY_DELAY_MS - now_ms
    } else {
        0
    };
    RetryPlan::AttemptAfter { wait_ms, attempt_number }
}

/// Retrying is capped at three attempts: a record still failing after
/// attempt three is dropped, never tried a fourth time, and a record
/// below the cap is retried with the next attempt number, which itself
/// never passes three. Records carry the number of the attempt that
/// failed, so three consecutive retryable failures end at `tried == 3`
/// and the next pop drops the record.
pub proof fn lemma_retry_cap(rec: FailedDelivery, now_ms: u64)
    ensures
        rec.tried >= MAX_DELIVERY_ATTEMPTS ==> spec_retry_plan(rec, now_ms) == RetryPlan::Drop,
        rec.tried < MAX_DELIVERY_ATTEMPTS ==> (spec_retry_plan(rec, now_ms) matches
            RetryPlan::AttemptAfter { attempt_number, .. } && (attempt_number == rec.tried + 1
            && attempt_number <= MAX_DELIVERY_ATTEMPTS)),
{
}

/// The process-wide retry queue: failed deliveries waiting for their
/// next attempt, oldest first. The single retry loop pops from the
/// front; deliveries push to the back and wake the loop when the queue
/// was empty.
pub struct RetryQueue {
    pub entries: std::collections::VecDeque<FailedDelivery>,
}

impl RetryQueue {
    /// An empty queue.
    pub fn new() -> (r: RetryQueue)
        ensures
            r.entries@.len() == 0,
    {
        RetryQueue { entries: std::collections::VecDeque::new() }
    }

    /// How many records wait in the queue.
    pub fn len(&self) -> (r: usize)
        ensures
            r == self.entries@.len(),
    {
        self.entries.len()
    }

    /// Appends a record and says whether the retry loop must be woken:
    /// exactly when the queue was empty before the push.
    pub fn push(&mut self, rec: FailedDelivery) -> (wake: bool)
        ensures
            final(self).entries@ == old(self).entries@.push(rec),
            wake == (old(self).entries@.len() == 0),
    {
        let was_empty = self.entries.len() == 0;
        self.entries.push_back(rec);
        was_empty
    }

    /// Removes and hands back the oldest record, if any.
    pub fn pop(&mut self) -> (r: Option<FailedDelivery>)
        ensures
            old(self).entries@.len() == 0 ==> (r is None && final(self).entries@ == old(
                self,
            ).entries@),
            old(self).entries@.len() > 0 ==> (r matches Some(rec) && rec == old(
                self,
            ).entries@[0] && final(self).entries@ == old(self).entries@.subrange(
                1,
                old(self).entries@.len() as int,
            )),
    {
        self.entries.pop_front()
    }
}

/// Whether a recipient endpoint may be contacted at all: only HTTPS
/// endpoints are, and a recipient with any other scheme is a permanent,
/// never retried failure.
pub fn check_recipient_scheme(url: &[u8]) -> (r: Result<(), ApiError>)
    ensures
        is_prefix_of(https_prefix(), url@) ==> r is Ok,
        !is_prefix_of(https_prefix(), url@) ==> r == Err::<(), ApiError>(ApiError::OtherBadRequest),
{
    proof {
        reveal_strlit("https://");
    }
    let p = str_to_bytes("https://");
    if starts_with(url, p.as_slice()) {
        Ok(())
    } else {
        Err(ApiError::OtherBadRequest)
    }
}

/// The scheme-and-separator prefix every reachable endpoint must carry.
pub open spec fn https_prefix() -> Seq<u8> {
    crate::bytestr::ascii_seq("https://"@)
}

/// Classifies the response to the delivery POST: success on any 2xx
/// status, a retryable network failure when no response came back at
/// all, and a permanent unexpected-response failure otherwise.
pub fn classify_post_response(status: Option<u16>) -> (r: Result<(), ApiError>)
    ensures
        status is None ==> r == Err::<(), ApiError>(ApiError::FailedDeliveryDueToNetworkError),
        status matches Some(code) && 200 <= code < 300 ==> r is Ok,
        status matches Some(code) && !(200 <= code < 300) ==> r == Err::<(), ApiError>(
            ApiError::UnexpectedResponseFromFederatedServer,
        ),
{
    match status {
        Option::None => Err(ApiError::FailedDeliveryDueToNetworkError),
        Option::Some(code) => {
            if 200 <= code && code < 300 {
                Ok(())
            } else {
                Err(ApiError::UnexpectedResponseFromFederatedServer)
            }
        },
    }
}

/// Classifies the response to the profile fetch that discovers a
/// recipient's inbox: no response at all is a retryable network failure;
/// a 405 marks a server that does not federate and is a permanent
/// failure; any other response is inspected further by the caller.
pub fn classify_profile_response(status: Option<u16>) -> (r: Result<(), ApiError>)
    ensures
        status is None ==> r == Err::<(), ApiError>(ApiError::FailedDeliveryDueToNetworkError),
        status == Some(405u16) ==> r == Err::<(), ApiError>(ApiError::OtherBadRequest),
        status matches Some(code) && code != 405 ==> r is Ok,
{
    match status {
        Option::None => Err(ApiError::FailedDeliveryDueToNetworkError),
        Option::Some(code) => {
            if code == 405 {
                Err(ApiError::OtherBadRequest)
            } else {
                Ok(())
            }
        },
    }
}

/// The Host header for an inbox endpoint: the host, with the port
/// appended after a colon when one is given.
pub fn host_header_value(host: Option<Vec<u8>>, port: Option<u16>) -> (r: Result<Vec<u8>, ApiError>)
    ensures
        match host {
            Option::None => r == Err::<Vec<u8>, ApiError>(
                ApiError::UnexpectedResponseFromFederatedServer,
            ),
            Option::Some(h) => r matches Ok(v) && v@ == (match port {
                Option::None => h@,
                Option::Some(p) => h@ + seq![58u8] + crate::numfmt::dec_nat(p as nat),
            }),
        },
{
    match host {
        Option::None => Err(ApiError::UnexpectedResponseFromFederatedServer),
        Option::Some(h) => {
            match port {
                Option::None => Ok(h),
                Option::Some(p) => {
                    let mut out = h;
                    out.push(58);
                    crate::numfmt::push_dec_u64(p as u64, &mut out);
                    Ok(out)
                },
            }
        },
    }
}

} // verus!
