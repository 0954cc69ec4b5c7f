use vstd::prelude::*;
use crate::frame::{frame_ip, frame_mac, frame_pair, Frame};
use crate::record::{pairs_of, AddrRecord};
use crate::text::same_text;
use crate::timestamp::{local_now, Timestamp};

verus! {

/// Adds the pair a frame offers, unless it is absent or already present.
pub open spec fn reduce_step(
    prev: Seq<(Seq<char>, Seq<char>)>,
    p: Option<(Seq<char>, Seq<char>)>,
) -> Seq<(Seq<char>, Seq<char>)> {
    match p {
        Some(q) => if prev.contains(q) { prev } else { prev.push(q) },
        None => prev,
    }
}

/// The distinct (IP, MAC) pairs of a cycle's decoded frames, in order of first
/// appearance; a frame that failed to decode (`None`) adds nothing.
pub open spec fn reduce_spec(frames: Seq<Option<Frame>>) -> Seq<(Seq<char>, Seq<char>)>
    decreases frames.len(),
{
    if frames.len() == 0 {
        Seq::empty()
    } else {
        let prev = reduce_spec(frames.drop_last());
        match frames.last() {
            Some(f) => reduce_step(prev, frame_pair(f)),
            None => prev,
        }
    }
}

/// The observations of one scan cycle, all stamped with the cycle's start.
pub struct CycleReducer {
    pub stamp: Timestamp,
    pub records: Vec<AddrRecord>,
}

impl CycleReducer {
    /// Every observation carries the cycle's stamp.
    pub open spec fn wf(&self) -> bool {
        forall|i: int| 0 <= i < self.records@.len() ==> (#[trigger] self.records@[i]).last_seen == self.stamp
    }

    /// The (IP, MAC) pairs observed so far, in order of first appearance.
    pub open spec fn pairs(&self) -> Seq<(Seq<char>, Seq<char>)> {
        pairs_of(self.records@)
    }

    /// A cycle that began at `stamp`, with nothing observed yet.
    pub fn new(stamp: Timestamp) -> (r: CycleReducer)
        ensures
            r.wf(),
            r.stamp == stamp,
            r.pairs() == Seq::<(Seq<char>, Seq<char>)>::empty(),
    {
        let r = CycleReducer { stamp, records: Vec::new() };
        assert(r.pairs() =~= Seq::<(Seq<char>, Seq<char>)>::empty());
        r
    }

    /// A cycle stamped with the current local time.
    pub fn start() -> (r: CycleReducer)
        ensures
            r.wf(),
            r.stamp.wf(),
            r.pairs() == Seq::<(Seq<char>, Seq<char>)>::empty(),
    {
        CycleReducer::new(local_now())
    }

    /// Whether the pair (`ip`, `mac`) has been observed in this cycle.
    pub fn contains_pair(&self, ip: &str, mac: &str) -> (r: bool)
        ensures
            r == self.pairs().contains((ip@, mac@)),
    {
        let mut i: usize = 0;
        while i < self.records.len()
            invariant
                i <= self.records@.len(),
                forall|k: int| 0 <= k < i ==> self.pairs()[k] != (ip@, mac@),
            decreases self.records@.len() - i,
        {
            let r = &self.records[i];
            if same_text(r.ip.as_str(), ip) && same_text(r.mac.as_str(), mac) {
                assert(self.pairs()[i as int] == (ip@, mac@));
                return true;
            }
            i = i + 1;
        }
        false
    }

    /// Takes one decoded frame into the cycle.
    pub fn observe(&mut self, frame: &Frame)
        requires
            old(self).wf(),
        ensures
            final(self).wf(),
            final(self).stamp == old(self).stamp,
            final(self).pairs() == reduce_step(old(self).pairs(), frame_pair(*frame)),
    {
        match frame.address_pair() {
            Some((ip, mac)) => {
                if !self.contains_pair(ip.as_str(), mac.as_str()) {
                    let ghost before = self.records@;
                    self.records.push(AddrRecord { ip, mac, last_seen: self.stamp });
                    assert(pairs_of(self.records@) =~= pairs_of(before).push((ip@, mac@)));
                }
            },
            None => {},
        }
    }

    /// The cycle's observations.
    pub fn finish(self) -> (r: Vec<AddrRecord>)
        requires
            self.wf(),
        ensures
            pairs_of(r@) == self.pairs(),
            forall|i: int| 0 <= i < r@.len() ==> (#[trigger] r@[i]).last_seen == self.stamp,
    {
        self.records
    }
}

/// The deduplicated observations of one cycle's decoded frames, each stamped
/// with `stamp`; frames that failed to decode are passed over.
pub fn extract_observations(frames: &Vec<Option<Frame>>, stamp: Timestamp) -> (r: Vec<AddrRecord>)
    ensures
        pairs_of(r@) == reduce_spec(frames@),
        forall|i: int| 0 <= i < r@.len() ==> (#[trigger] r@[i]).last_seen == stamp,
{
    let mut reducer = CycleReducer::new(stamp);
    let mut i: usize = 0;
    while i < frames.len()
        invariant
            i <= frames@.len(),
            reducer.wf(),
            reducer.stamp == stamp,
            reducer.pairs() == reduce_spec(frames@.take(i as int)),
        decreases frames@.len() - i,
    {
        assert(frames@.take(i + 1).drop_last() =~= frames@.take(i as int));
        assert(frames@.take(i + 1).last() == frames@[i as int]);
        match &frames[i] {
            Some(f) => reducer.observe(f),
            None => {},
        }
        i = i + 1;
    }
    assert(frames@.take(frames@.len() as int) =~= frames@);
    reducer.finish()
}

/// Whether a decoded frame offers the pair `p`.
pub open spec fn offers(frame: Option<Frame>, p: (Seq<char>, Seq<char>)) -> bool {
    match frame {
        Some(f) => frame_pair(f) == Some(p),
        None => false,
    }
}

/// No two observations of a cycle share both their IP and their MAC.
pub proof fn lemma_observations_distinct(frames: Seq<Option<Frame>>)
    ensures
        forall|i: int, j: int|
            0 <= i < j < reduce_spec(frames).len() ==> reduce_spec(frames)[i] != reduce_spec(frames)[j],
    decreases frames.len(),
{
    if frames.len() > 0 {
        lemma_observations_distinct(frames.drop_last());
        let prev = reduce_spec(frames.drop_last());
        assert forall|i: int, j: int|
            0 <= i < j < reduce_spec(frames).len() implies reduce_spec(frames)[i] != reduce_spec(frames)[j] by {
            if j == prev.len() {
                assert(prev[i] == reduce_spec(frames)[i]);
                if prev[i] == reduce_spec(frames)[j] {
                    assert(prev.contains(prev[i]));
                }
            }
        }
    }
}

/// A frame that lacks its IP or its MAC adds no observation.
pub proof fn lemma_incomplete_frame_adds_nothing(frames: Seq<Option<Frame>>, f: Frame)
    requires
        frame_ip(f).len() == 0 || frame_mac(f).len() == 0,
    ensures
        reduce_spec(frames.push(Some(f))) == reduce_spec(frames),
{
    assert(frames.push(Some(f)).drop_last() =~= frames);
}

/// Every observation of a cycle carries a non-empty IP and a non-empty MAC,
/// and comes from a frame of the cycle that carries exactly that pair.
pub proof fn lemma_observations_from_complete_frames(frames: Seq<Option<Frame>>)
    ensures
        forall|i: int| 0 <= i < reduce_spec(frames).len() ==> {
            &&& (#[trigger] reduce_spec(frames)[i]).0.len() > 0
            &&& reduce_spec(frames)[i].1.len() > 0
            &&& exists|k: int| 0 <= k < frames.len() && offers(#[trigger] frames[k], reduce_spec(frames)[i])
        },
    decreases frames.len(),
{
    if frames.len() > 0 {
        let init = frames.drop_last();
        lemma_observations_from_complete_frames(init);
        let prev = reduce_spec(init);
        assert forall|i: int| 0 <= i < reduce_spec(frames).len() implies {
            &&& (#[trigger] reduce_spec(frames)[i]).0.len() > 0
            &&& reduce_spec(frames)[i].1.len() > 0
            &&& exists|k: int| 0 <= k < frames.len() && offers(#[trigger] frames[k], reduce_spec(frames)[i])
        } by {
            if i < prev.len() {
                assert(reduce_spec(frames)[i] == prev[i]);
                let k = choose|k: int| 0 <= k < init.len() && offers(#[trigger] init[k], prev[i]);
                assert(frames[k] == init[k]);
            } else {
                let k = frames.len() - 1;
                assert(frames[k] == frames.last());
            }
        }
    }
}
} // verus!
