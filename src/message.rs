use vstd::prelude::*;

verus! {

/// What travels on a pool's queue: a unit of work, or the signal that tells
/// one worker to stop.
pub enum Message<J> {
    NewJob(J),
    Terminate,
}

impl<J> Message<J> {
    /// Whether this is the signal to stop.
    pub fn is_terminate(&self) -> (r: bool)
        ensures
            r == (*self is Terminate),
    {
        match self {
            Message::NewJob(_) => false,
            Message::Terminate => true,
        }
    }
}

/// The number of jobs in a run of messages.
pub open spec fn job_count<J>(s: Seq<Message<J>>) -> nat
    decreases s.len(),
{
    if s.len() == 0 {
        0
    } else {
        job_count(s.drop_last()) + if s.last() is NewJob { 1nat } else { 0nat }
    }
}

/// The number of terminate signals in a run of messages.
pub open spec fn terminate_count<J>(s: Seq<Message<J>>) -> nat
    decreases s.len(),
{
    if s.len() == 0 {
        0
    } else {
        terminate_count(s.drop_last()) + if s.last() is Terminate { 1nat } else { 0nat }
    }
}

/// `n` terminate signals in a row.
pub open spec fn terminates<J>(n: nat) -> Seq<Message<J>> {
    Seq::new(n, |i: int| Message::Terminate)
}

/// Every job of `s` comes before every terminate signal of `s`.
pub open spec fn jobs_first<J>(s: Seq<Message<J>>) -> bool {
    forall|i: int, j: int| 0 <= i < j < s.len() && s[i] is Terminate ==> s[j] is Terminate
}

pub proof fn lemma_counts_split<J>(s: Seq<Message<J>>)
    ensures
        job_count(s) + terminate_count(s) == s.len(),
    decreases s.len(),
{
    if s.len() > 0 {
        lemma_counts_split(s.drop_last());
    }
}

pub proof fn lemma_counts_push<J>(s: Seq<Message<J>>, m: Message<J>)
    ensures
        job_count(s.push(m)) == job_count(s) + if m is NewJob { 1nat } else { 0nat },
        terminate_count(s.push(m)) == terminate_count(s) + if m is Terminate { 1nat } else { 0nat },
{
    assert(s.push(m).drop_last() =~= s);
}

pub proof fn lemma_counts_drop_first<J>(s: Seq<Message<J>>)
    requires
        s.len() > 0,
    ensures
        job_count(s) == job_count(s.drop_first()) + if s[0] is NewJob { 1nat } else { 0nat },
        terminate_count(s) == terminate_count(s.drop_first()) + if s[0] is Terminate { 1nat } else { 0nat },
    decreases s.len(),
{
    if s.len() > 1 {
        lemma_counts_drop_first(s.drop_last());
        assert(s.drop_last().drop_first() =~= s.drop_first().drop_last());
        assert(s.drop_first().last() == s.last());
        assert(s.drop_last()[0] == s[0]);
    } else {
        assert(job_count(s.drop_first()) == 0);
        assert(terminate_count(s.drop_first()) == 0);
        assert(job_count(s.drop_last()) == 0);
        assert(terminate_count(s.drop_last()) == 0);
        assert(s.last() == s[0]);
    }
}

pub proof fn lemma_terminates_count<J>(n: nat)
    ensures
        job_count(terminates::<J>(n)) == 0,
        terminate_count(terminates::<J>(n)) == n,
    decreases n,
{
    if n > 0 {
        lemma_terminates_count::<J>((n - 1) as nat);
        assert(terminates::<J>(n).drop_last() =~= terminates::<J>((n - 1) as nat));
    }
}

/// A run without terminate signals holds jobs only.
pub proof fn lemma_no_terminates<J>(s: Seq<Message<J>>)
    requires
        terminate_count(s) == 0,
    ensures
        forall|i: int| 0 <= i < s.len() ==> s[i] is NewJob,
    decreases s.len(),
{
    if s.len() > 0 {
        lemma_no_terminates(s.drop_last());
        assert forall|i: int| 0 <= i < s.len() implies s[i] is NewJob by {
            if i < s.len() - 1 {
                assert(s[i] == s.drop_last()[i]);
            }
        }
    }
}

/// A run without jobs holds terminate signals only.
pub proof fn lemma_no_jobs<J>(s: Seq<Message<J>>)
    requires
        job_count(s) == 0,
    ensures
        forall|i: int| 0 <= i < s.len() ==> s[i] is Terminate,
    decreases s.len(),
{
    if s.len() > 0 {
        lemma_no_jobs(s.drop_last());
        assert forall|i: int| 0 <= i < s.len() implies s[i] is Terminate by {
            if i < s.len() - 1 {
                assert(s[i] == s.drop_last()[i]);
            }
        }
    }
}

/// A run of terminate signals only holds no job.
pub proof fn lemma_only_terminates<J>(s: Seq<Message<J>>)
    requires
        forall|i: int| 0 <= i < s.len() ==> s[i] is Terminate,
    ensures
        job_count(s) == 0,
    decreases s.len(),
{
    if s.len() > 0 {
        assert forall|i: int| 0 <= i < s.drop_last().len() implies s.drop_last()[i] is Terminate by {
            assert(s.drop_last()[i] == s[i]);
        }
        lemma_only_terminates(s.drop_last());
    }
}

} // verus!
