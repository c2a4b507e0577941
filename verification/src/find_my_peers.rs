//! What the console reports of the routing table and of a closest-peers query.
use vstd::prelude::*;

verus! {

/// The entries of all buckets, bucket after bucket, each in its own order.
pub open spec fn flatten<P>(buckets: Seq<Seq<P>>) -> Seq<P>
    decreases buckets.len(),
{
    if buckets.len() == 0 {
        Seq::<P>::empty()
    } else {
        flatten(buckets.drop_last()) + buckets.last()
    }
}

/// Law: listing an empty routing table lists nobody; a bucket added after
/// others is listed whole, after the peers of the others; a single bucket is
/// listed as it is.
pub proof fn lemma_flatten_buckets<P>(buckets: Seq<Seq<P>>, bucket: Seq<P>)
    ensures
        flatten(Seq::<Seq<P>>::empty()) == Seq::<P>::empty(),
        flatten(buckets.push(bucket)) == flatten(buckets) + bucket,
        flatten(seq![bucket]) == bucket,
{
    assert(flatten(Seq::<Seq<P>>::empty()) == Seq::<P>::empty());
    assert(buckets.push(bucket).drop_last() =~= buckets);
    assert(buckets.push(bucket).last() == bucket);
    let one = seq![bucket];
    assert(one.drop_last() =~= Seq::<Seq<P>>::empty());
    assert(one.last() == bucket);
    assert(flatten(one) == flatten(one.drop_last()) + one.last());
    assert(Seq::<P>::empty() + bucket =~= bucket);
}

/// The number of entries in all buckets together.
pub open spec fn total_entries<P>(buckets: Seq<Seq<P>>) -> nat
    decreases buckets.len(),
{
    if buckets.len() == 0 {
        0
    } else {
        total_entries(buckets.drop_last()) + buckets.last().len()
    }
}

/// The buckets before `i`, with bucket `i`, hold no more entries than all of them.
proof fn lemma_total_prefix<P>(buckets: Seq<Seq<P>>, i: int)
    requires
        0 <= i < buckets.len(),
    ensures
        total_entries(buckets.take(i)) + buckets[i].len() <= total_entries(buckets),
    decreases buckets.len(),
{
    let n = buckets.len() - 1;
    let init = buckets.drop_last();
    assert(total_entries(buckets) == total_entries(init) + buckets.last().len());
    if i < n {
        assert(buckets.take(i) =~= init.take(i));
        assert(init[i] == buckets[i]);
        lemma_total_prefix(init, i);
    } else {
        assert(buckets.take(i) =~= init);
    }
}

/// Law: every entry of every bucket is listed, in its place: entry `j` of
/// bucket `i` comes right after the entries of the buckets before `i` and the
/// first `j` entries of bucket `i`; and as many peers are listed as the
/// buckets hold.
pub proof fn lemma_every_entry_listed<P>(buckets: Seq<Seq<P>>)
    ensures
        flatten(buckets).len() == total_entries(buckets),
        forall|i: int, j: int|
            0 <= i < buckets.len() && 0 <= j < buckets[i].len() ==> flatten(buckets)[total_entries(
                buckets.take(i),
            ) + j] == #[trigger] buckets[i][j],
    decreases buckets.len(),
{
    if buckets.len() > 0 {
        let init = buckets.drop_last();
        let n = buckets.len() - 1;
        lemma_every_entry_listed(init);
        assert(flatten(buckets) == flatten(init) + buckets.last());
        assert(total_entries(buckets) == total_entries(init) + buckets.last().len());
        assert forall|i: int, j: int|
            0 <= i < buckets.len() && 0 <= j < buckets[i].len() implies flatten(
                buckets,
            )[total_entries(buckets.take(i)) + j] == #[trigger] buckets[i][j] by {
            if i < n {
                assert(buckets.take(i) =~= init.take(i));
                assert(init[i] == buckets[i]);
                lemma_total_prefix(init, i);
                assert(init[i][j] == buckets[i][j]);
                let k = total_entries(init.take(i)) + j;
                assert(k < flatten(init).len());
                assert(flatten(buckets)[k] == flatten(init)[k]);
            } else {
                assert(buckets.take(i) =~= init);
                assert(buckets.last() == buckets[i]);
            }
        }
    }
}

/// The peers of the routing table, in the order in which they are printed:
/// the non-empty buckets one after the other, each entry of a bucket in turn.
pub fn list_peers<P: Copy>(buckets: &Vec<Vec<P>>) -> (peers: Vec<P>)
    ensures
        peers@ == flatten(buckets@.map_values(|b: Vec<P>| b@)),
{
    let ghost all = buckets@.map_values(|b: Vec<P>| b@);
    let mut peers: Vec<P> = Vec::new();
    let nb = buckets.len();
    let mut i: usize = 0;
    assert(all.take(0) =~= Seq::<Seq<P>>::empty());
    while i < nb
        invariant
            nb == buckets@.len(),
            all == buckets@.map_values(|b: Vec<P>| b@),
            i <= nb,
            peers@ == flatten(all.take(i as int)),
        decreases nb - i,
    {
        let bucket = &buckets[i];
        let ghost before = peers@;
        assert(all[i as int] == bucket@);
        if bucket.len() > 0 {
            let ne = bucket.len();
            let mut j: usize = 0;
            while j < ne
                invariant
                    ne == bucket@.len(),
                    j <= ne,
                    peers@ == before + bucket@.take(j as int),
                decreases ne - j,
            {
                let item: P = bucket[j];
                peers.push(item);
                j = j + 1;
                assert(peers@ =~= before + bucket@.take(j as int));
            }
            assert(bucket@.take(ne as int) =~= bucket@);
        } else {
            assert(before + bucket@ =~= before);
        }
        assert(all.take(i + 1).drop_last() =~= all.take(i as int));
        i = i + 1;
    }
    assert(all.take(nb as int) =~= all);
    peers
}

/// What the console says of a finished closest-peers query.
#[derive(Debug, Clone, PartialEq, Eq)]
pub enum SearchReport<P> {
    /// The query finished and found these peers.
    ClosestPeers(Vec<P>),
    /// The query finished without finding any peer.
    NoClosestPeers,
    /// The query timed out after finding these peers.
    TimedOutWithPeers(Vec<P>),
    /// The query timed out without finding any peer.
    TimedOutNoPeers,
}

impl<P> SearchReport<P> {
    /// The sentence printed for this report; the peers, where there are any,
    /// follow it.
    pub fn headline(&self) -> (r: &'static str)
        ensures
            r@ == match self {
                SearchReport::ClosestPeers(_) => "Query finished with closest peers:"@,
                SearchReport::NoClosestPeers => "Query finished with no closest peers."@,
                SearchReport::TimedOutWithPeers(_) => "Query timed out with closest peers:"@,
                SearchReport::TimedOutNoPeers => "Query timed out with no closest peers."@,
            },
    {
        match self {
            SearchReport::ClosestPeers(_) => "Query finished with closest peers:",
            SearchReport::NoClosestPeers => "Query finished with no closest peers.",
            SearchReport::TimedOutWithPeers(_) => "Query timed out with closest peers:",
            SearchReport::TimedOutNoPeers => "Query timed out with no closest peers.",
        }
    }
}

/// The report on the outcome of a closest-peers query: `Ok` holds the peers of
/// a query that finished, `Err` those that a query had found when it timed out.
pub fn search<P>(result: Result<Vec<P>, Vec<P>>) -> (report: SearchReport<P>)
    ensures
        match result {
            Ok(peers) => if peers@.len() > 0 {
                report == SearchReport::ClosestPeers(peers)
            } else {
                report == SearchReport::<P>::NoClosestPeers
            },
            Err(peers) => if peers@.len() > 0 {
                report == SearchReport::TimedOutWithPeers(peers)
            } else {
                report == SearchReport::<P>::TimedOutNoPeers
            },
        },
{
    match result {
        Ok(peers) => {
            if peers.len() > 0 {
                SearchReport::ClosestPeers(peers)
            } else {
                SearchReport::NoClosestPeers
            }
        },
        Err(peers) => {
            if peers.len() > 0 {
                SearchReport::TimedOutWithPeers(peers)
            } else {
                SearchReport::TimedOutNoPeers
            }
        },
    }
}

} // verus!
