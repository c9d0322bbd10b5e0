//! Host name resolution decisions: which address a DNS answer yields, and whether to
//! retry. The firmware runs the queries and the timer.
use vstd::prelude::*;

verus! {

/// What the resolve loop does after one attempt.
#[derive(Debug, PartialEq, Eq)]
pub enum RetryStep<A> {
    /// Stop with this address.
    Resolved(A),
    /// Wait this many seconds, then query again.
    RetryAfter(u64),
}

/// The address a DNS answer yields: its first A record; `None` when the query failed or
/// returned no address.
pub fn resolve<A: Copy, E>(answer: Result<&[A], E>) -> (r: Option<A>)
    ensures
        r == match answer {
            Ok(addrs) => if addrs@.len() > 0 {
                Some(addrs@[0])
            } else {
                None
            },
            Err(_) => None,
        },
{
    match answer {
        Ok(addrs) => if addrs.len() > 0 {
            Some(addrs[0])
        } else {
            None
        },
        Err(_) => None,
    }
}

/// The decision after one attempt: stop with the address once the attempt yields one,
/// otherwise wait `retry_secs` seconds and try again.
pub open spec fn retry_decision<A>(resolved: Option<A>, retry_secs: u64) -> RetryStep<A> {
    match resolved {
        Some(a) => RetryStep::Resolved(a),
        None => RetryStep::<A>::RetryAfter(retry_secs),
    }
}

/// The steps the resolve loop takes over the outcomes of successive attempts: one step
/// per attempt, up to and including the first that yields an address.
pub open spec fn retry_run<A>(attempts: Seq<Option<A>>, retry_secs: u64) -> Seq<RetryStep<A>>
    decreases attempts.len(),
{
    if attempts.len() == 0 {
        Seq::empty()
    } else {
        match attempts[0] {
            Some(a) => seq![RetryStep::Resolved(a)],
            None => seq![RetryStep::<A>::RetryAfter(retry_secs)] + retry_run(
                attempts.drop_first(),
                retry_secs,
            ),
        }
    }
}

/// One turn of the resolve-with-retry loop: stop with the address once an attempt
/// yields one, otherwise wait `retry_secs` seconds and try again. The loop never ends
/// without an address.
pub fn resolve_with_retry<A>(resolved: Option<A>, retry_secs: u64) -> (r: RetryStep<A>)
    ensures
        r == retry_decision(resolved, retry_secs),
{
    match resolved {
        Some(a) => RetryStep::Resolved(a),
        None => RetryStep::RetryAfter(retry_secs),
    }
}

/// Law: when the first `k` attempts yield no address and attempt `k + 1` yields `a`,
/// the loop waits `retry_secs` seconds after each of the `k` failures, then stops with
/// `a`: `k + 1` attempts and `k` waits in all, and later outcomes are never asked for.
pub proof fn lemma_retry_until_resolved<A>(
    attempts: Seq<Option<A>>,
    k: nat,
    a: A,
    retry_secs: u64,
)
    requires
        k < attempts.len(),
        forall|i: int| 0 <= i < k ==> attempts[i] is None,
        attempts[k as int] == Some(a),
    ensures
        retry_run(attempts, retry_secs) == Seq::new(k, |i: int| RetryStep::<A>::RetryAfter(retry_secs)).push(
            RetryStep::Resolved(a),
        ),
    decreases k,
{
    if k > 0 {
        let rest = attempts.drop_first();
        assert forall|i: int| 0 <= i < k - 1 implies rest[i] is None by {
            assert(rest[i] == attempts[i + 1]);
        }
        assert(rest[k - 1] == attempts[k as int]);
        lemma_retry_until_resolved(rest, (k - 1) as nat, a, retry_secs);
        assert(attempts[0] is None);
        assert(retry_run(attempts, retry_secs) =~= seq![RetryStep::<A>::RetryAfter(retry_secs)]
            + retry_run(rest, retry_secs));
        assert(Seq::new(k, |i: int| RetryStep::<A>::RetryAfter(retry_secs)).push(RetryStep::Resolved(a))
            =~= seq![RetryStep::<A>::RetryAfter(retry_secs)] + Seq::new(
            (k - 1) as nat,
            |i: int| RetryStep::<A>::RetryAfter(retry_secs),
        ).push(RetryStep::Resolved(a)));
    }
}

/// Law: while no attempt yields an address, every step is a wait of `retry_secs`
/// seconds; the loop never stops without an address.
pub proof fn lemma_retry_never_gives_up<A>(attempts: Seq<Option<A>>, retry_secs: u64)
    requires
        forall|i: int| 0 <= i < attempts.len() ==> attempts[i] is None,
    ensures
        retry_run(attempts, retry_secs) == Seq::new(
            attempts.len(),
            |i: int| RetryStep::<A>::RetryAfter(retry_secs),
        ),
    decreases attempts.len(),
{
    if attempts.len() > 0 {
        let rest = attempts.drop_first();
        assert forall|i: int| 0 <= i < rest.len() implies rest[i] is None by {
            assert(rest[i] == attempts[i + 1]);
        }
        lemma_retry_never_gives_up(rest, retry_secs);
        assert(attempts[0] is None);
        assert(Seq::new(attempts.len(), |i: int| RetryStep::<A>::RetryAfter(retry_secs))
            =~= seq![RetryStep::<A>::RetryAfter(retry_secs)] + Seq::new(
            rest.len(),
            |i: int| RetryStep::<A>::RetryAfter(retry_secs),
        ));
    }
}

} // verus!
