use vstd::prelude::*;

verus! {

/// A mark that a chat gives to some of its members.
#[allow(non_camel_case_types)]
#[derive(Clone, Copy, Debug, PartialEq, Eq)]
pub enum Badges {
    MEMBER,
    VERIFIED,
    OWNER,
    MODERATOR,
}

/// One event of a chat. Times are in milliseconds.
#[derive(Debug)]
pub enum ChatAction {
    /// A message came. `badges` is there when the author wears any badge.
    Message {
        id: String,
        author: String,
        timestamp: u64,
        content: String,
        badges: Option<Vec<Badges>>,
        context_params: String,
    },
    /// An author supported the broadcast.
    Support { author: String, timestamp: u64 },
    /// An author's message was retracted.
    RetractedMessage { author: String, timestamp: u64 },
}

impl ChatAction {
    /// The time of the event, in milliseconds.
    pub open spec fn time(self) -> u64 {
        match self {
            ChatAction::Message { timestamp, .. } => timestamp,
            ChatAction::Support { timestamp, .. } => timestamp,
            ChatAction::RetractedMessage { timestamp, .. } => timestamp,
        }
    }

    /// The author of the event.
    pub open spec fn sender(self) -> Seq<char> {
        match self {
            ChatAction::Message { author, .. } => author@,
            ChatAction::Support { author, .. } => author@,
            ChatAction::RetractedMessage { author, .. } => author@,
        }
    }

    /// The time of the event, in milliseconds.
    pub fn timestamp(&self) -> (t: u64)
        ensures
            t == self.time(),
    {
        match self {
            ChatAction::Message { timestamp, .. } => *timestamp,
            ChatAction::Support { timestamp, .. } => *timestamp,
            ChatAction::RetractedMessage { timestamp, .. } => *timestamp,
        }
    }
}

/// The events are in the order of their times: none comes before an earlier
/// one.
pub open spec fn in_time_order(actions: Seq<ChatAction>) -> bool {
    forall|i: int, j: int|
        0 <= i <= j < actions.len() ==> (#[trigger] actions[i]).time() <= (#[trigger] actions[j]).time()
}

/// The events of `actions` whose time is `time`, in the order in which they
/// stand there.
pub open spec fn at_time(actions: Seq<ChatAction>, time: u64) -> Seq<ChatAction>
    decreases actions.len(),
{
    if actions.len() == 0 {
        actions
    } else if actions.last().time() == time {
        at_time(actions.drop_last(), time).push(actions.last())
    } else {
        at_time(actions.drop_last(), time)
    }
}

/// `sorted` holds the events of `actions` by time, and events of one time in
/// the order that they have in `actions`. There is one such sequence.
pub open spec fn is_sorted_by_time(sorted: Seq<ChatAction>, actions: Seq<ChatAction>) -> bool {
    &&& sorted.len() == actions.len()
    &&& in_time_order(sorted)
    &&& forall|time: u64| #[trigger] at_time(sorted, time) == at_time(actions, time)
}

/// The events of a given time in two sequences, one behind the other.
proof fn lemma_at_time_add(a: Seq<ChatAction>, b: Seq<ChatAction>, time: u64)
    ensures
        at_time(a + b, time) == at_time(a, time) + at_time(b, time),
    decreases b.len(),
{
    if b.len() == 0 {
        assert(a + b == a);
        assert(at_time(a, time) + at_time(b, time) == at_time(a, time));
    } else {
        lemma_at_time_add(a, b.drop_last(), time);
        assert((a + b).drop_last() == a + b.drop_last());
        assert((a + b).last() == b.last());
        if b.last().time() == time {
            assert((at_time(a, time) + at_time(b.drop_last(), time)).push(b.last()) == at_time(
                a,
                time,
            ) + at_time(b.drop_last(), time).push(b.last()));
        }
    }
}

/// A sequence without an event of a given time.
proof fn lemma_at_time_none(a: Seq<ChatAction>, time: u64)
    requires
        forall|i: int| 0 <= i < a.len() ==> (#[trigger] a[i]).time() != time,
    ensures
        at_time(a, time) == Seq::<ChatAction>::empty(),
    decreases a.len(),
{
    if a.len() > 0 {
        lemma_at_time_none(a.drop_last(), time);
    }
}

/// Every event of a given time is among the events picked for that time.
proof fn lemma_at_time_some(a: Seq<ChatAction>, i: int)
    requires
        0 <= i < a.len(),
    ensures
        at_time(a, a[i].time()).len() > 0,
    decreases a.len(),
{
    if i < a.len() - 1 {
        lemma_at_time_some(a.drop_last(), i);
    }
}

/// The sorted sequence is unique: two sequences that both hold the events of
/// `actions` by time, ties in the order of `actions`, are the same.
pub proof fn lemma_sorted_by_time_unique(
    first: Seq<ChatAction>,
    second: Seq<ChatAction>,
    actions: Seq<ChatAction>,
)
    requires
        is_sorted_by_time(first, actions),
        is_sorted_by_time(second, actions),
    ensures
        first == second,
{
    lemma_same_order_same_picks(first, second);
}

/// Two sequences in time order that agree, for every time, on the events of
/// that time and their order are the same sequence.
proof fn lemma_same_order_same_picks(first: Seq<ChatAction>, second: Seq<ChatAction>)
    requires
        first.len() == second.len(),
        in_time_order(first),
        in_time_order(second),
        forall|time: u64| #[trigger] at_time(first, time) == at_time(second, time),
    ensures
        first == second,
    decreases first.len(),
{
    if first.len() > 0 {
        let last = first.len() - 1;
        let time = first[last].time();
        let other = second[last].time();
        assert(at_time(first, time) == at_time(second, time));
        assert(at_time(first, other) == at_time(second, other));
        if other < time {
            lemma_at_time_some(first, last);
            assert forall|i: int| 0 <= i < second.len() implies (#[trigger] second[i]).time()
                != time by {
                assert(second[i].time() <= second[last].time());
            }
            lemma_at_time_none(second, time);
        }
        if time < other {
            lemma_at_time_some(second, last);
            assert forall|i: int| 0 <= i < first.len() implies (#[trigger] first[i]).time()
                != other by {
                assert(first[i].time() <= first[last].time());
            }
            lemma_at_time_none(first, other);
        }
        assert(time == other);
        assert(at_time(first, time).last() == first[last]);
        assert(at_time(second, time).last() == second[last]);
        let shorter = first.drop_last();
        let other_shorter = second.drop_last();
        assert(in_time_order(shorter)) by {
            assert forall|i: int, j: int| 0 <= i <= j < shorter.len() implies (
            #[trigger] shorter[i]).time() <= (#[trigger] shorter[j]).time() by {
                assert(first[i].time() <= first[j].time());
            }
        }
        assert(in_time_order(other_shorter)) by {
            assert forall|i: int, j: int| 0 <= i <= j < other_shorter.len() implies (
            #[trigger] other_shorter[i]).time() <= (#[trigger] other_shorter[j]).time() by {
                assert(second[i].time() <= second[j].time());
            }
        }
        assert forall|t: u64| #[trigger] at_time(shorter, t) == at_time(other_shorter, t) by {
            assert(at_time(first, t) == at_time(second, t));
            if t == time {
                assert(at_time(first, t).drop_last() == at_time(shorter, t));
                assert(at_time(second, t).drop_last() == at_time(other_shorter, t));
            }
        }
        lemma_same_order_same_picks(shorter, other_shorter);
        assert(first == shorter.push(first[last]));
        assert(second == other_shorter.push(second[last]));
    }
}

/// Putting `action` behind the last event that is not later than it keeps a
/// sorted sequence sorted, and puts `action` behind the events of its time.
proof fn lemma_insert_keeps_sorted(
    sorted: Seq<ChatAction>,
    taken: Seq<ChatAction>,
    place: int,
    action: ChatAction,
)
    requires
        is_sorted_by_time(sorted, taken),
        0 <= place <= sorted.len(),
        forall|k: int| 0 <= k < place ==> (#[trigger] sorted[k]).time() <= action.time(),
        forall|k: int| place <= k < sorted.len() ==> (#[trigger] sorted[k]).time() > action.time(),
    ensures
        is_sorted_by_time(sorted.insert(place, action), taken.push(action)),
{
    let grown = sorted.insert(place, action);
    let front = sorted.take(place);
    let back = sorted.skip(place);
    assert(grown == front.push(action) + back);
    assert(sorted == front + back);
    assert(in_time_order(grown)) by {
        assert forall|i: int, j: int| 0 <= i <= j < grown.len() implies (#[trigger] grown[i]).time()
            <= (#[trigger] grown[j]).time() by {
            if i < place && j > place {
                assert(sorted[i].time() <= sorted[j - 1].time());
            } else if i < place && j < place {
                assert(sorted[i].time() <= sorted[j].time());
            } else if i > place && j > place {
                assert(sorted[i - 1].time() <= sorted[j - 1].time());
            }
        }
    }
    assert forall|time: u64| #[trigger] at_time(grown, time) == at_time(taken.push(action), time) by {
        lemma_at_time_add(front.push(action), back, time);
        lemma_at_time_add(front, back, time);
        assert(front.push(action).drop_last() == front);
        assert(taken.push(action).drop_last() == taken);
        assert(at_time(sorted, time) == at_time(taken, time));
        if action.time() == time {
            lemma_at_time_none(back, time);
            assert(at_time(front, time).push(action) + Seq::<ChatAction>::empty() == at_time(
                front,
                time,
            ).push(action));
            assert(at_time(front, time) + Seq::<ChatAction>::empty() == at_time(front, time));
        }
    }
}

/// Sorts the events by time. Events of one time keep their order.
pub fn sort_by_timestamp(actions: Vec<ChatAction>) -> (sorted: Vec<ChatAction>)
    ensures
        is_sorted_by_time(sorted@, actions@),
{
    let ghost given = actions@;
    let mut sorted: Vec<ChatAction> = Vec::new();
    assert(given.take(0) == Seq::<ChatAction>::empty());
    for action in it: actions
        invariant
            it.seq() == given,
            is_sorted_by_time(sorted@, given.take(it.index())),
    {
        let time: u64 = action.timestamp();
        let mut place: usize = sorted.len();
        while place > 0 && sorted[place - 1].timestamp() > time
            invariant
                place <= sorted.len(),
                forall|k: int| place <= k < sorted.len() ==> (#[trigger] sorted[k]).time() > time,
            decreases place,
        {
            place = place - 1;
        }
        proof {
            assert forall|k: int| 0 <= k < place implies (#[trigger] sorted[k]).time() <= time by {
                assert(sorted[k].time() <= sorted[place - 1].time());
            }
            lemma_insert_keeps_sorted(sorted@, given.take(it.index()), place as int, action);
            assert(given.take(it.index() + 1) == given.take(it.index()).push(action));
        }
        sorted.insert(place, action);
    }
    assert(given.take(given.len() as int) == given);
    sorted
}

} // verus!
