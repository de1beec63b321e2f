use vstd::prelude::*;
use crate::detector_params::{DetectorParams, Policy};
use crate::mean_length::{lemma_extended_wf, MeanLength};
use crate::message_data::{chars_of, similar, MessageData, Repeated};

verus! {

/// Why an author was reported.
#[derive(Clone, Copy, Debug, PartialEq, Eq, Structural)]
pub enum Reason {
    /// A message came sooner after the last one than slow mode allows.
    SlowMode,
    /// The mean delay between messages, which it carries, is too short.
    TooFast(u32),
    /// The mean length of the messages, which it carries, is too large.
    TooLong(MeanLength),
    /// One message came too often, alike or nearly so.
    Similar,
    /// A message was retracted by an account that is new.
    RetractedMessage,
}

/// What is kept of one author, as contracts speak of it.
pub struct AuthorStats {
    /// The time of the last message, in seconds.
    pub last_message_timestamp: u64,
    /// The number of messages, the first one included.
    pub total_messages: u32,
    /// The running mean of the delays between messages, in seconds.
    pub avg_delay: u32,
    /// The running mean of the messages' lengths.
    pub avg_message_length: MeanLength,
    /// The shapes of message seen so far, the oldest first.
    pub sent_messages: Seq<Repeated>,
}

/// The running mean of delays after one more message: of `count` messages,
/// the last came `delay` seconds after the one before, and the mean before it
/// was `avg_delay`. The division rounds down.
pub open spec fn next_avg_delay(avg_delay: u32, delay: u32, count: u32) -> u32 {
    ((delay + (count - 1) * avg_delay) / (count as int)) as u32
}

/// The message that came `delay` seconds after the last one breaks slow mode.
pub open spec fn breaks_slow_mode(delay: u32, slow_mode: u32) -> bool {
    slow_mode != 0 && delay < slow_mode
}

/// `i` is the place of the oldest shape in `sent` that `content` is similar to.
pub open spec fn is_first_similar(sent: Seq<Repeated>, content: Seq<char>, i: int) -> bool {
    &&& 0 <= i < sent.len()
    &&& similar(sent[i].text, content)
    &&& forall|k: int| 0 <= k < i ==> !similar(#[trigger] sent[k].text, content)
}

/// The place of the oldest shape in `sent` that `content` is similar to, if
/// there is one.
pub open spec fn first_similar(sent: Seq<Repeated>, content: Seq<char>) -> Option<int> {
    if exists|i: int| is_first_similar(sent, content, i) {
        Some(choose|i: int| is_first_similar(sent, content, i))
    } else {
        None
    }
}

impl AuthorStats {
    /// There is at least one message, the mean length is a proper fraction,
    /// and no shape was counted more often than messages came.
    pub open spec fn wf(self) -> bool {
        &&& self.total_messages >= 1
        &&& self.avg_message_length.wf()
        &&& forall|i: int|
            0 <= i < self.sent_messages.len() ==> (#[trigger] self.sent_messages[i]).count
                <= self.total_messages
    }

    /// What is kept of an author after the first message.
    pub open spec fn first(content: Seq<char>, timestamp: u64) -> AuthorStats {
        AuthorStats {
            last_message_timestamp: timestamp,
            total_messages: 1,
            avg_delay: 0,
            avg_message_length: MeanLength { sum: content.len() as u128, weight: 1 },
            sent_messages: seq![Repeated { text: content, count: 1 }],
        }
    }

    /// A message at `timestamp` can be checked: it does not come before the
    /// last one, and the delay and the number of messages stay in range.
    pub open spec fn admits(self, timestamp: u64) -> bool {
        &&& self.total_messages < u32::MAX
        &&& self.last_message_timestamp <= timestamp
        &&& timestamp - self.last_message_timestamp <= u32::MAX
    }

    /// The delay of a message at `timestamp`.
    pub open spec fn delay(self, timestamp: u64) -> u32 {
        (timestamp - self.last_message_timestamp) as u32
    }

    /// The message is counted and its time kept; nothing else changes.
    pub open spec fn counted(self, timestamp: u64) -> AuthorStats {
        AuthorStats {
            total_messages: (self.total_messages + 1) as u32,
            last_message_timestamp: timestamp,
            ..self
        }
    }

    /// As `counted`, with the mean delay brought up to date.
    pub open spec fn timed(self, timestamp: u64) -> AuthorStats {
        AuthorStats {
            avg_delay: next_avg_delay(
                self.avg_delay,
                self.delay(timestamp),
                (self.total_messages + 1) as u32,
            ),
            ..self.counted(timestamp)
        }
    }

    /// As `timed`, with the mean length brought up to date.
    pub open spec fn measured(self, timestamp: u64, content: Seq<char>) -> AuthorStats {
        AuthorStats {
            avg_message_length: self.avg_message_length.extended(
                content.len(),
                (self.total_messages + 1) as u32,
            ),
            ..self.timed(timestamp)
        }
    }

    /// As `measured`, with `content` entered among the shapes: counted with
    /// the oldest shape that it is similar to, which takes its text, or added
    /// as a new shape behind the others.
    pub open spec fn remembered(self, timestamp: u64, content: Seq<char>) -> AuthorStats {
        let sent = match first_similar(self.sent_messages, content) {
            Some(i) => self.sent_messages.update(
                i,
                Repeated { text: content, count: (self.sent_messages[i].count + 1) as u32 },
            ),
            None => self.sent_messages.push(Repeated { text: content, count: 1 }),
        };
        AuthorStats { sent_messages: sent, ..self.measured(timestamp, content) }
    }

    /// What a message of this author leads to: what is kept of the author
    /// afterwards, and the reason to report the message, if there is one.
    ///
    /// The checks come in a fixed order and the first that fires ends the
    /// evaluation: slow mode, which leaves both means as they were; the mean
    /// delay; the mean length; then, for a message that is long enough, the
    /// number of similar messages.
    pub open spec fn after_message(
        self,
        timestamp: u64,
        content: Seq<char>,
        slow_mode: u32,
        policy: Policy,
    ) -> (AuthorStats, Option<Reason>) {
        let count = (self.total_messages + 1) as u32;
        let timed = self.timed(timestamp);
        let measured = self.measured(timestamp, content);
        if breaks_slow_mode(self.delay(timestamp), slow_mode) {
            (self.counted(timestamp), Some(Reason::SlowMode))
        } else if policy.is_too_fast(timed.avg_delay, count) {
            (timed, Some(Reason::TooFast(timed.avg_delay)))
        } else if policy.messages_are_too_long(measured.avg_message_length, count) {
            (measured, Some(Reason::TooLong(measured.avg_message_length)))
        } else if !policy.should_check_message(content.len()) {
            (measured, None)
        } else {
            let reason = match first_similar(self.sent_messages, content) {
                Some(i) => if policy.sent_too_many_similar_messages(
                    (self.sent_messages[i].count + 1) as u32,
                ) {
                    Some(Reason::Similar)
                } else {
                    None
                },
                None => None,
            };
            (self.remembered(timestamp, content), reason)
        }
    }
}

/// The mean delay that the running mean arrives at when an author's messages
/// come with these delays, the first of them after the author's first
/// message: it starts at zero and takes in one delay at a time, rounding down
/// at every step.
pub open spec fn running_mean(delays: Seq<u32>) -> u32
    decreases delays.len(),
{
    if delays.len() == 0 {
        0
    } else {
        next_avg_delay(running_mean(delays.drop_last()), delays.last(), (delays.len() + 1) as u32)
    }
}

/// The sum of the delays.
pub open spec fn total_delay(delays: Seq<u32>) -> int
    decreases delays.len(),
{
    if delays.len() == 0 {
        0
    } else {
        total_delay(delays.drop_last()) + delays.last()
    }
}

impl AuthorStats {
    /// What is kept of an author after the messages `messages`, each given by
    /// its time and its cleaned text, the earliest first.
    pub open spec fn after_messages(
        self,
        messages: Seq<(u64, Seq<char>)>,
        slow_mode: u32,
        policy: Policy,
    ) -> AuthorStats
        decreases messages.len(),
    {
        if messages.len() == 0 {
            self
        } else {
            self.after_messages(messages.drop_last(), slow_mode, policy).after_message(
                messages.last().0,
                messages.last().1,
                slow_mode,
                policy,
            ).0
        }
    }
}

/// The time before the message at place `i`: the time of the message before
/// it, or `start` for the first.
pub open spec fn time_before(start: u64, messages: Seq<(u64, Seq<char>)>, i: int) -> u64 {
    if i == 0 {
        start
    } else {
        messages[i - 1].0
    }
}

/// Slow mode comes first: a message that breaks slow mode is reported for
/// that and for nothing else, whatever the other checks would say, and no
/// other message is reported for slow mode.
pub proof fn lemma_slow_mode_comes_first(
    stats: AuthorStats,
    timestamp: u64,
    content: Seq<char>,
    slow_mode: u32,
    policy: Policy,
)
    ensures
        breaks_slow_mode(stats.delay(timestamp), slow_mode) <==> stats.after_message(
            timestamp,
            content,
            slow_mode,
            policy,
        ).1 == Some(Reason::SlowMode),
{
}

/// A message that breaks slow mode is counted and its time kept, and that
/// is all: both means and the shapes of message stay as they were.
pub proof fn lemma_slow_mode_freezes_means(
    stats: AuthorStats,
    timestamp: u64,
    content: Seq<char>,
    slow_mode: u32,
    policy: Policy,
)
    requires
        breaks_slow_mode(stats.delay(timestamp), slow_mode),
    ensures
        ({
            let after = stats.after_message(timestamp, content, slow_mode, policy).0;
            &&& after.avg_delay == stats.avg_delay
            &&& after.avg_message_length == stats.avg_message_length
            &&& after.sent_messages == stats.sent_messages
            &&& after.total_messages == (stats.total_messages + 1) as u32
            &&& after.last_message_timestamp == timestamp
        }),
{
}

/// A message that does not break slow mode brings the mean delay up to date,
/// whichever check fires on it.
pub proof fn lemma_mean_delay_moves(
    stats: AuthorStats,
    timestamp: u64,
    content: Seq<char>,
    slow_mode: u32,
    policy: Policy,
)
    requires
        !breaks_slow_mode(stats.delay(timestamp), slow_mode),
    ensures
        ({
            let after = stats.after_message(timestamp, content, slow_mode, policy).0;
            &&& after.avg_delay == next_avg_delay(
                stats.avg_delay,
                stats.delay(timestamp),
                (stats.total_messages + 1) as u32,
            )
            &&& after.total_messages == (stats.total_messages + 1) as u32
            &&& after.last_message_timestamp == timestamp
        }),
{
}

/// A message that can be checked leaves the statistics well formed.
pub proof fn lemma_after_message_wf(
    stats: AuthorStats,
    timestamp: u64,
    content: Seq<char>,
    slow_mode: u32,
    policy: Policy,
)
    requires
        stats.wf(),
        stats.admits(timestamp),
        content.len() <= usize::MAX,
    ensures
        stats.after_message(timestamp, content, slow_mode, policy).0.wf(),
{
    let count = (stats.total_messages + 1) as u32;
    let mean = stats.avg_message_length;
    lemma_extended_wf(mean, content.len(), count);
    let after = stats.after_message(timestamp, content, slow_mode, policy).0;
    assert forall|i: int| 0 <= i < after.sent_messages.len() implies (
    #[trigger] after.sent_messages[i]).count <= after.total_messages by {
        if i < stats.sent_messages.len() {
            assert(stats.sent_messages[i].count <= stats.total_messages);
        }
    }
}

/// The mean delay is the running mean of the delays. After an author's
/// first message at `start` and the further messages `messages`, of which
/// the one at place `i` came `delays[i]` seconds after the one before and
/// none broke slow mode, the mean delay that is kept is
/// `running_mean(delays)`: every message rounds down once more.
pub proof fn lemma_avg_delay_is_running_mean(
    content: Seq<char>,
    start: u64,
    messages: Seq<(u64, Seq<char>)>,
    delays: Seq<u32>,
    slow_mode: u32,
    policy: Policy,
)
    requires
        messages.len() + 1 <= u32::MAX,
        delays.len() == messages.len(),
        forall|i: int|
            0 <= i < messages.len() ==> #[trigger] delays[i] == messages[i].0 - time_before(
                start,
                messages,
                i,
            ),
        forall|i: int| 0 <= i < delays.len() ==> !breaks_slow_mode(#[trigger] delays[i], slow_mode),
    ensures
        ({
            let after = AuthorStats::first(content, start).after_messages(
                messages,
                slow_mode,
                policy,
            );
            &&& after.avg_delay == running_mean(delays)
            &&& after.total_messages == messages.len() + 1
            &&& after.last_message_timestamp == time_before(start, messages, messages.len() as int)
        }),
    decreases messages.len(),
{
    if messages.len() > 0 {
        let earlier = messages.drop_last();
        let earlier_delays = delays.drop_last();
        assert forall|i: int| 0 <= i < earlier.len() implies #[trigger] earlier_delays[i]
            == earlier[i].0 - time_before(start, earlier, i) by {
            assert(earlier_delays[i] == delays[i]);
        }
        assert forall|i: int| 0 <= i < earlier_delays.len() implies !breaks_slow_mode(
            #[trigger] earlier_delays[i],
            slow_mode,
        ) by {
            assert(earlier_delays[i] == delays[i]);
        }
        lemma_avg_delay_is_running_mean(content, start, earlier, earlier_delays, slow_mode, policy);
        let before = AuthorStats::first(content, start).after_messages(earlier, slow_mode, policy);
        let last = messages.len() - 1;
        assert(before.last_message_timestamp == time_before(start, messages, last));
        assert(before.delay(messages[last].0) == delays[last]);
        lemma_mean_delay_moves(before, messages[last].0, messages[last].1, slow_mode, policy);
    }
}

/// The running mean never lies above the true mean: taken times the number
/// of messages, it is at most the sum of the delays.
pub proof fn lemma_running_mean_below_mean(delays: Seq<u32>)
    requires
        delays.len() + 1 <= u32::MAX,
    ensures
        running_mean(delays) * (delays.len() + 1) <= total_delay(delays),
    decreases delays.len(),
{
    if delays.len() > 0 {
        lemma_running_mean_below_mean(delays.drop_last());
        let count = (delays.len() + 1) as u32;
        let earlier = running_mean(delays.drop_last());
        lemma_next_avg_delay_fits(earlier, delays.last(), count);
        let weighted = delays.last() + (count - 1) * earlier;
        assert(delays.drop_last().len() + 1 == count - 1);
        assert((count - 1) * earlier == earlier * (count - 1)) by (nonlinear_arith);
        assert(weighted <= total_delay(delays));
        assert((weighted / (count as int)) * count <= weighted) by (nonlinear_arith)
            requires
                0 <= weighted,
                count >= 1,
        ;
        let mean = running_mean(delays);
        assert(mean == weighted / (count as int));
        assert(mean * (delays.len() + 1) <= weighted) by (nonlinear_arith)
            requires
                mean == weighted / (count as int),
                (weighted / (count as int)) * count <= weighted,
                delays.len() + 1 == count,
        ;
    } else {
        assert(running_mean(delays) * (delays.len() + 1) == 0) by (nonlinear_arith)
            requires
                running_mean(delays) == 0,
        ;
    }
}

/// Where nothing was rounded away before the last message, the running mean
/// is the true mean, rounded down: the sum of the delays over the number of
/// messages.
pub proof fn lemma_running_mean_exact(delays: Seq<u32>)
    requires
        delays.len() >= 1,
        delays.len() + 1 <= u32::MAX,
        running_mean(delays.drop_last()) * delays.len() == total_delay(delays.drop_last()),
    ensures
        running_mean(delays) == total_delay(delays) / ((delays.len() + 1) as int),
{
    let count = (delays.len() + 1) as u32;
    let earlier = running_mean(delays.drop_last());
    lemma_next_avg_delay_fits(earlier, delays.last(), count);
    assert((count - 1) * earlier == earlier * delays.len()) by (nonlinear_arith)
        requires
            count - 1 == delays.len(),
    ;
}

/// The views of the messages in `sent`.
pub open spec fn shapes(sent: Seq<MessageData>) -> Seq<Repeated> {
    Seq::new(sent.len(), |i: int| sent[i]@)
}

/// The running statistics of one author.
pub struct AuthorData {
    last_message_timestamp: u64,
    sent_messages: Vec<MessageData>,
    avg_delay: u32,
    total_messages: u32,
    avg_message_length: MeanLength,
}

impl View for AuthorData {
    type V = AuthorStats;

    closed spec fn view(&self) -> AuthorStats {
        AuthorStats {
            last_message_timestamp: self.last_message_timestamp,
            total_messages: self.total_messages,
            avg_delay: self.avg_delay,
            avg_message_length: self.avg_message_length,
            sent_messages: shapes(self.sent_messages@),
        }
    }
}

/// The place of the oldest message in `sent` that `content` is similar to.
fn find_similar(sent: &Vec<MessageData>, content: &Vec<char>) -> (found: Option<usize>)
    ensures
        match found {
            Some(i) => first_similar(shapes(sent@), content@) == Some(i as int),
            None => first_similar(shapes(sent@), content@) is None,
        },
{
    let mut i: usize = 0;
    while i < sent.len()
        invariant
            i <= sent.len(),
            forall|k: int| 0 <= k < i ==> !similar(#[trigger] shapes(sent@)[k].text, content@),
        decreases sent.len() - i,
    {
        if sent[i].is_similar_to(content) {
            proof {
                let sent_shapes = shapes(sent@);
                assert(is_first_similar(sent_shapes, content@, i as int));
                let j = choose|j: int| is_first_similar(sent_shapes, content@, j);
                assert(j == i) by {
                    if j < i {
                        assert(!similar(sent_shapes[j].text, content@));
                    }
                    if i < j {
                        assert(!similar(sent_shapes[i as int].text, content@));
                    }
                }
            }
            return Some(i);
        }
        i = i + 1;
    }
    assert forall|j: int| !is_first_similar(shapes(sent@), content@, j) by {
        if 0 <= j < sent.len() {
            assert(!similar(shapes(sent@)[j].text, content@));
        }
    }
    None
}

/// The running mean `(delay + (count - 1) * avg_delay) / count` is at most
/// the larger of `delay` and `avg_delay`, so it fits where they fit.
proof fn lemma_next_avg_delay_fits(avg_delay: u32, delay: u32, count: u32)
    requires
        count >= 1,
    ensures
        0 <= (delay + (count - 1) * avg_delay) / (count as int) <= u32::MAX,
        0 <= delay + (count - 1) * avg_delay <= u64::MAX,
        0 <= (count - 1) * avg_delay <= u64::MAX,
{
    let total = delay + (count - 1) * avg_delay;
    assert(0 <= (count - 1) * avg_delay <= (count - 1) * u32::MAX) by (nonlinear_arith)
        requires
            count >= 1,
            0 <= avg_delay <= u32::MAX,
    ;
    assert(total <= count * u32::MAX) by (nonlinear_arith)
        requires
            total == delay + (count - 1) * avg_delay,
            (count - 1) * avg_delay <= (count - 1) * u32::MAX,
            delay <= u32::MAX,
    ;
    assert(count * u32::MAX <= u32::MAX * u32::MAX) by (nonlinear_arith)
        requires
            count <= u32::MAX,
    ;
    assert(0 <= total / (count as int) <= u32::MAX) by (nonlinear_arith)
        requires
            0 <= total <= count * u32::MAX,
            count >= 1,
    ;
}

impl AuthorData {
    /// The statistics of an author whose first message, `first_message`, came
    /// at `message_timestamp`.
    pub fn new(first_message: String, message_timestamp: u64) -> (data: Self)
        ensures
            data@ == AuthorStats::first(first_message@, message_timestamp),
            data@.wf(),
    {
        let chars = chars_of(first_message.as_str());
        let message_length: usize = chars.len();
        let new_message_data = MessageData::from_chars(chars);
        let data = AuthorData {
            last_message_timestamp: message_timestamp,
            sent_messages: vec![new_message_data],
            avg_delay: 0,
            total_messages: 1,
            avg_message_length: MeanLength::first(message_length),
        };
        assert(data@.sent_messages == seq![Repeated { text: first_message@, count: 1 }]);
        data
    }

    /// Takes in the author's next message, which came at `timestamp` with the
    /// cleaned text `content`, and says why it is to be reported, if it is.
    pub fn check_message(
        &mut self,
        timestamp: u64,
        content: &str,
        current_slow_mode: u32,
        detector_params: &DetectorParams,
    ) -> (reason: Option<Reason>)
        requires
            old(self)@.wf(),
            old(self)@.admits(timestamp),
        ensures
            (final(self)@, reason) == old(self)@.after_message(
                timestamp,
                content@,
                current_slow_mode,
                detector_params@,
            ),
            final(self)@.wf(),
    {
        let ghost before = self@;
        self.total_messages = self.total_messages + 1;
        let time_diff: u32 = (timestamp - self.last_message_timestamp) as u32;
        self.last_message_timestamp = timestamp;
        let broke_slow_mode = current_slow_mode != 0 && time_diff < current_slow_mode;
        if broke_slow_mode {
            assert(self@ == before.counted(timestamp));
            return Some(Reason::SlowMode);
        }
        let total_messages: u32 = self.total_messages;
        proof {
            lemma_next_avg_delay_fits(self.avg_delay, time_diff, total_messages);
        }
        let weighted: u64 = (total_messages - 1) as u64 * self.avg_delay as u64;
        self.avg_delay = ((time_diff as u64 + weighted) / total_messages as u64) as u32;
        if detector_params.is_too_fast(self.avg_delay, self.total_messages) {
            assert(self@ == before.timed(timestamp));
            return Some(Reason::TooFast(self.avg_delay));
        }
        let chars = chars_of(content);
        let length: usize = chars.len();
        self.avg_message_length = self.avg_message_length.extend(length, total_messages);
        if detector_params.messages_are_too_long(self.avg_message_length, self.total_messages) {
            assert(self@ == before.measured(timestamp, content@));
            return Some(Reason::TooLong(self.avg_message_length));
        }
        let checked_length: u32 = if length > u32::MAX as usize {
            u32::MAX
        } else {
            length as u32
        };
        if !detector_params.should_check_message(checked_length) {
            assert(self@ == before.measured(timestamp, content@));
            return None;
        }
        assert(shapes(self.sent_messages@) == before.sent_messages);
        match find_similar(&self.sent_messages, &chars) {
            Some(i) => {
                assert(is_first_similar(before.sent_messages, content@, i as int));
                self.sent_messages[i].absorb(chars);
                let similar_messages_count: u32 = self.sent_messages[i].count();
                assert(self@.sent_messages == before.remembered(timestamp, content@).sent_messages);
                assert(self@ == before.remembered(timestamp, content@));
                if detector_params.sent_too_many_similar_messages(similar_messages_count) {
                    Some(Reason::Similar)
                } else {
                    None
                }
            },
            None => {
                let new_message_data = MessageData::from_chars(chars);
                self.sent_messages.push(new_message_data);
                assert(self@.sent_messages == before.remembered(timestamp, content@).sent_messages);
                assert(self@ == before.remembered(timestamp, content@));
                None
            },
        }
    }

    /// Whether a message at `timestamp` can be checked, see
    /// [`AuthorStats::admits`].
    pub fn accepts(&self, timestamp: u64) -> (b: bool)
        ensures
            b == self@.admits(timestamp),
    {
        self.total_messages < u32::MAX && self.last_message_timestamp <= timestamp && timestamp
            - self.last_message_timestamp <= 0xffff_ffff
    }

    /// The time of the author's last message, in seconds.
    pub fn last_message_timestamp(&self) -> (t: u64)
        ensures
            t == self@.last_message_timestamp,
    {
        self.last_message_timestamp
    }

    /// The number of the author's messages.
    pub fn total_messages(&self) -> (n: u32)
        ensures
            n == self@.total_messages,
    {
        self.total_messages
    }

    /// The running mean of the delays between the author's messages.
    pub fn avg_delay(&self) -> (d: u32)
        ensures
            d == self@.avg_delay,
    {
        self.avg_delay
    }

    /// The running mean of the lengths of the author's messages.
    pub fn avg_message_length(&self) -> (mean: MeanLength)
        ensures
            mean == self@.avg_message_length,
    {
        self.avg_message_length
    }
}

} // verus!
