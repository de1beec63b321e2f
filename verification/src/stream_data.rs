use vstd::prelude::*;
use vstd::hash_map::StringHashMap;
use vstd::hash_set::StringHashSet;
use crate::author_data::{lemma_after_message_wf, AuthorData, AuthorStats, Reason};
use crate::chat_action::ChatAction;
use crate::detector_params::{DetectorParams, Policy};
use crate::emoji::{lemma_stripped_len, stripped};
use crate::reg_date::RegDate;
use crate::reg_date_loader::{RegDateLoader, Registry};
use crate::ProcessingResult;

verus! {

/// An event that makes its author suspect. Whether the author is reported
/// depends on the account's registration date.
#[derive(Debug, PartialEq, Eq)]
pub enum Suspect {
    /// A check has fired on a message.
    Message { id: String, author: String, context_params: String, reason: Reason },
    /// A message was retracted.
    Retraction { author: String },
}

impl Suspect {
    /// The author under suspicion.
    pub open spec fn sender(self) -> Seq<char> {
        match self {
            Suspect::Message { author, .. } => author@,
            Suspect::Retraction { author } => author@,
        }
    }

    /// The reason that the author is flagged with, if the account is new.
    pub open spec fn reason(self) -> Reason {
        match self {
            Suspect::Message { reason, .. } => reason,
            Suspect::Retraction { .. } => Reason::RetractedMessage,
        }
    }

    /// The result that is given out, if the account is new. A retraction
    /// gives none.
    pub open spec fn report(self) -> Option<ProcessingResult> {
        match self {
            Suspect::Message { id, author, context_params, reason } => Some(
                ProcessingResult { message_id: id, author, menu_param: context_params, reason },
            ),
            Suspect::Retraction { .. } => None,
        }
    }

    /// The author under suspicion.
    pub fn author(&self) -> (author: &str)
        ensures
            author@ == self.sender(),
    {
        match self {
            Suspect::Message { author, .. } => author.as_str(),
            Suspect::Retraction { author } => author.as_str(),
        }
    }
}

/// How far one event got.
#[derive(Debug, PartialEq, Eq)]
pub enum Step {
    /// The event is dealt with. It gave one result or none.
    Done(Option<ProcessingResult>),
    /// The event made its author suspect, and the author's registration date
    /// is not settled: it has to be looked up and handed to `resume`.
    Lookup(Suspect),
}

/// The state of one broadcast, as contracts speak of it.
pub struct StreamView {
    /// The flagged authors, each with the reason.
    pub reported: Map<Seq<char>, Reason>,
    /// The authors who supported the broadcast.
    pub superchated: Set<Seq<char>>,
    /// The statistics of each author whose messages were taken in.
    pub authors: Map<Seq<char>, AuthorStats>,
    /// The least delay allowed between two messages of an author, in seconds;
    /// zero where there is none.
    pub slow_mode: u32,
}

impl StreamView {
    /// The statistics of every author are well formed.
    pub open spec fn wf(self) -> bool {
        forall|author: Seq<char>| #[trigger]
            self.authors.contains_key(author) ==> self.authors[author].wf()
    }

    /// The state of a broadcast before its first event.
    pub open spec fn start() -> StreamView {
        StreamView {
            reported: Map::empty(),
            superchated: Set::empty(),
            authors: Map::empty(),
            slow_mode: 0,
        }
    }

    /// The message will be checked against its author's statistics: it
    /// carries no badge, and its author has not supported the broadcast, is
    /// not flagged and has sent a message before.
    pub open spec fn checks(self, action: ChatAction) -> bool {
        match action {
            ChatAction::Message { author, badges, .. } => {
                &&& badges is None
                &&& !self.superchated.contains(author@)
                &&& !self.reported.contains_key(author@)
                &&& self.authors.contains_key(author@)
            },
            _ => false,
        }
    }

    /// The event can be taken in: a message that will be checked comes no
    /// earlier than its author's last one, and the author's statistics have
    /// room for it.
    pub open spec fn admits(self, action: ChatAction) -> bool {
        self.checks(action) ==> self.authors[action.sender()].admits(action.time() / 1000)
    }

    /// What an event leads to before any registration date is asked for.
    ///
    /// A message with a badge, or of an author who supported the broadcast,
    /// changes nothing. A message of a flagged author is reported with the
    /// author's reason. The first message of an author starts the author's
    /// statistics. Any further message is cleaned and checked against them,
    /// and makes its author suspect where a check fires. Support takes the
    /// author's flag away and lets the author's messages pass from then on.
    /// A retraction makes an author suspect who is not flagged.
    pub open spec fn examined(self, policy: Policy, action: ChatAction) -> (StreamView, Step) {
        match action {
            ChatAction::Message { id, author, timestamp, content, badges, context_params } => {
                if badges is Some || self.superchated.contains(author@) {
                    (self, Step::Done(None))
                } else if self.reported.contains_key(author@) {
                    (
                        self,
                        Step::Done(
                            Some(
                                ProcessingResult {
                                    message_id: id,
                                    author,
                                    menu_param: context_params,
                                    reason: self.reported[author@],
                                },
                            ),
                        ),
                    )
                } else if !self.authors.contains_key(author@) {
                    let first = AuthorStats::first(stripped(content@), timestamp / 1000);
                    (
                        StreamView { authors: self.authors.insert(author@, first), ..self },
                        Step::Done(None),
                    )
                } else {
                    let (stats, found) = self.authors[author@].after_message(
                        timestamp / 1000,
                        stripped(content@),
                        self.slow_mode,
                        policy,
                    );
                    (
                        StreamView { authors: self.authors.insert(author@, stats), ..self },
                        match found {
                            Some(reason) => Step::Lookup(
                                Suspect::Message { id, author, context_params, reason },
                            ),
                            None => Step::Done(None),
                        },
                    )
                }
            },
            ChatAction::Support { author, .. } => (
                StreamView {
                    reported: self.reported.remove(author@),
                    superchated: self.superchated.insert(author@),
                    ..self
                },
                Step::Done(None),
            ),
            ChatAction::RetractedMessage { author, .. } => if self.reported.contains_key(author@) {
                (self, Step::Done(None))
            } else {
                (self, Step::Lookup(Suspect::Retraction { author }))
            },
        }
    }

    /// What becomes of a suspect once the registration date is known: an
    /// author whose account is new is flagged with the suspect's reason, and
    /// the suspect's result, if it has one, is given out. An older account
    /// changes nothing.
    pub open spec fn concluded(self, policy: Policy, suspect: Suspect, reg_date: RegDate) -> (
        StreamView,
        Option<ProcessingResult>,
    ) {
        if policy.acc_too_young(reg_date) {
            (
                StreamView {
                    reported: self.reported.insert(suspect.sender(), suspect.reason()),
                    ..self
                },
                suspect.report(),
            )
        } else {
            (self, None)
        }
    }

    /// What an event leads to where registration dates come from `registry`
    /// alone: a suspect whose date is settled there is concluded at once; one
    /// whose date is not is handed back for a lookup.
    pub open spec fn stepped(self, policy: Policy, registry: Registry, action: ChatAction) -> (
        StreamView,
        Step,
    ) {
        let (next, step) = self.examined(policy, action);
        match step {
            Step::Lookup(suspect) => match registry.cached(suspect.sender()) {
                Some(reg_date) => {
                    let (last, result) = next.concluded(policy, suspect, reg_date);
                    (last, Step::Done(result))
                },
                None => (next, step),
            },
            Step::Done(_) => (next, step),
        }
    }

    /// What the answer `loaded` to a lookup leads to: the date that it
    /// settles concludes the suspect; an error changes nothing and is handed
    /// on.
    pub open spec fn resumed(
        self,
        policy: Policy,
        registry: Registry,
        suspect: Suspect,
        loaded: Result<Option<RegDate>, String>,
    ) -> (StreamView, Registry, Result<Option<ProcessingResult>, String>) {
        let (settled, reg_date) = registry.after_load(suspect.sender(), loaded);
        match reg_date {
            Ok(reg_date) => {
                let (next, result) = self.concluded(policy, suspect, reg_date);
                (next, settled, Ok(result))
            },
            Err(error) => (self, settled, Err(error)),
        }
    }

    /// What an event leads to in all, where `reg_date` is the registration
    /// date that decides about a suspect, whether it was settled before or
    /// looked up: the state afterwards and the result given out, if any.
    pub open spec fn after_event(self, policy: Policy, action: ChatAction, reg_date: RegDate) -> (
        StreamView,
        Option<ProcessingResult>,
    ) {
        let (next, step) = self.examined(policy, action);
        match step {
            Step::Lookup(suspect) => next.concluded(policy, suspect, reg_date),
            Step::Done(result) => (next, result),
        }
    }

    /// No author's last message came after `time`, a time in milliseconds.
    pub open spec fn is_up_to(self, time: u64) -> bool {
        forall|author: Seq<char>| #[trigger]
            self.authors.contains_key(author) ==> self.authors[author].last_message_timestamp
                <= time / 1000
    }

    /// The state after the events `events`, the earliest first, each with the
    /// registration date that decides about it.
    pub open spec fn after_events(
        self,
        policy: Policy,
        events: Seq<(ChatAction, RegDate)>,
    ) -> StreamView
        decreases events.len(),
    {
        if events.len() == 0 {
            self
        } else {
            self.after_events(policy, events.drop_last()).after_event(
                policy,
                events.last().0,
                events.last().1,
            ).0
        }
    }
}

/// The event is a retraction by `author` on an account that is new.
pub open spec fn retracts_on_new_account(
    policy: Policy,
    event: (ChatAction, RegDate),
    author: Seq<char>,
) -> bool {
    event.0 is RetractedMessage && event.0.sender() == author && policy.acc_too_young(event.1)
}

/// An event that needs no lookup has the effect of `after_event` at once:
/// where the event makes nobody suspect, or the registry holds the date
/// `reg_date` of the suspect, `stepped` is done with the state and the result
/// of `after_event`.
pub proof fn lemma_settled_step_is_event(
    stream: StreamView,
    policy: Policy,
    registry: Registry,
    action: ChatAction,
    reg_date: RegDate,
)
    requires
        match stream.examined(policy, action).1 {
            Step::Lookup(suspect) => registry.cached(suspect.sender()) == Some(reg_date),
            Step::Done(_) => true,
        },
    ensures
        stream.stepped(policy, registry, action) == (
            stream.after_event(policy, action, reg_date).0,
            Step::Done(stream.after_event(policy, action, reg_date).1),
        ),
{
}

/// An event that needs a lookup has the effect of `after_event` once the
/// lookup is answered: where `stepped` hands back a suspect and the answer
/// `loaded` settles the date `reg_date`, `resumed` ends with the state and the
/// result of `after_event`, and the date is settled from then on.
pub proof fn lemma_resumed_step_is_event(
    stream: StreamView,
    policy: Policy,
    registry: Registry,
    action: ChatAction,
    loaded: Result<Option<RegDate>, String>,
    reg_date: RegDate,
)
    requires
        stream.stepped(policy, registry, action).1 is Lookup,
        registry.after_load(action.sender(), loaded).1 == Ok::<RegDate, String>(reg_date),
    ensures
        ({
            let (next, step) = stream.stepped(policy, registry, action);
            let (last, settled, result) = next.resumed(policy, registry, step->Lookup_0, loaded);
            &&& last == stream.after_event(policy, action, reg_date).0
            &&& result == Ok::<Option<ProcessingResult>, String>(
                stream.after_event(policy, action, reg_date).1,
            )
            &&& settled.cached(action.sender()) == Some(reg_date)
        }),
{
}

/// Support protects. An author who has supported the broadcast and is not
/// flagged stays so through every event, whatever registration date decides
/// about it, with one exception: a retraction by that author on an account
/// that is new.
pub proof fn lemma_supporter_is_not_flagged(
    stream: StreamView,
    policy: Policy,
    action: ChatAction,
    reg_date: RegDate,
    author: Seq<char>,
)
    requires
        stream.superchated.contains(author),
        !stream.reported.contains_key(author),
        !retracts_on_new_account(policy, (action, reg_date), author),
    ensures
        stream.after_event(policy, action, reg_date).0.superchated.contains(author),
        !stream.after_event(policy, action, reg_date).0.reported.contains_key(author),
{
}

/// Support protects for the rest of the broadcast: an author who has
/// supported it and is not flagged is not flagged after any number of further
/// events, as long as none of them is a retraction by that author on an
/// account that is new.
pub proof fn lemma_supporter_is_never_flagged(
    stream: StreamView,
    policy: Policy,
    events: Seq<(ChatAction, RegDate)>,
    author: Seq<char>,
)
    requires
        stream.superchated.contains(author),
        !stream.reported.contains_key(author),
        forall|i: int|
            0 <= i < events.len() ==> !retracts_on_new_account(policy, #[trigger] events[i], author),
    ensures
        stream.after_events(policy, events).superchated.contains(author),
        !stream.after_events(policy, events).reported.contains_key(author),
    decreases events.len(),
{
    if events.len() > 0 {
        let earlier = events.drop_last();
        assert forall|i: int| 0 <= i < earlier.len() implies !retracts_on_new_account(
            policy,
            #[trigger] earlier[i],
            author,
        ) by {
            assert(earlier[i] == events[i]);
        }
        lemma_supporter_is_never_flagged(stream, policy, earlier, author);
        assert(!retracts_on_new_account(policy, events[events.len() - 1], author));
        lemma_supporter_is_not_flagged(
            stream.after_events(policy, earlier),
            policy,
            events.last().0,
            events.last().1,
            author,
        );
    }
}

/// An event moves time on and never back: where no author's last message
/// came after the event, none came after any later time once the event is
/// taken in.
pub proof fn lemma_event_moves_time_on(
    stream: StreamView,
    policy: Policy,
    action: ChatAction,
    reg_date: RegDate,
    later: u64,
)
    requires
        stream.is_up_to(action.time()),
        action.time() <= later,
    ensures
        stream.after_event(policy, action, reg_date).0.is_up_to(later),
{
    let next = stream.after_event(policy, action, reg_date).0;
    assert forall|author: Seq<char>| #[trigger]
        next.authors.contains_key(author) implies next.authors[author].last_message_timestamp
        <= later / 1000 by {
        if author != action.sender() || !(action is Message) {
            assert(stream.authors.contains_key(author));
        }
    }
}

/// In a batch that is sorted by time, no message comes before its author's
/// last one: where the events are in time order and none of them is earlier
/// than an author's last message, every event in turn finds the authors'
/// last messages no later than itself, which is what
/// [`StreamView::admits`] asks of the order of events.
pub proof fn lemma_sorted_events_come_in_order(
    stream: StreamView,
    policy: Policy,
    events: Seq<(ChatAction, RegDate)>,
    next: ChatAction,
)
    requires
        forall|i: int, j: int|
            0 <= i <= j < events.len() ==> (#[trigger] events[i]).0.time() <= (
            #[trigger] events[j]).0.time(),
        forall|i: int| 0 <= i < events.len() ==> (#[trigger] events[i]).0.time() <= next.time(),
        events.len() > 0 ==> stream.is_up_to(events[0].0.time()),
        events.len() == 0 ==> stream.is_up_to(next.time()),
    ensures
        stream.after_events(policy, events).is_up_to(next.time()),
        stream.after_events(policy, events).checks(next) ==> stream.after_events(
            policy,
            events,
        ).authors[next.sender()].last_message_timestamp <= next.time() / 1000,
    decreases events.len(),
{
    if events.len() > 0 {
        let earlier = events.drop_last();
        let last = events.last();
        assert forall|i: int, j: int| 0 <= i <= j < earlier.len() implies (
        #[trigger] earlier[i]).0.time() <= (#[trigger] earlier[j]).0.time() by {
            assert(earlier[i] == events[i]);
            assert(earlier[j] == events[j]);
        }
        assert forall|i: int| 0 <= i < earlier.len() implies (#[trigger] earlier[i]).0.time()
            <= last.0.time() by {
            assert(earlier[i] == events[i]);
            assert(last == events[events.len() - 1]);
        }
        if earlier.len() > 0 {
            assert(earlier[0] == events[0]);
        } else {
            assert(last == events[0]);
        }
        lemma_sorted_events_come_in_order(stream, policy, earlier, last.0);
        assert(last == events[events.len() - 1]);
        lemma_event_moves_time_on(
            stream.after_events(policy, earlier),
            policy,
            last.0,
            last.1,
            next.time(),
        );
    }
}

/// A message of an author who has supported the broadcast changes nothing
/// and gives no result.
pub proof fn lemma_supporter_passes(
    stream: StreamView,
    policy: Policy,
    action: ChatAction,
    reg_date: RegDate,
)
    requires
        action is Message,
        stream.superchated.contains(action.sender()),
    ensures
        stream.after_event(policy, action, reg_date) == (stream, None::<ProcessingResult>),
{
}

/// A flag stays until support or new thresholds take it away: through every
/// event but support by the flagged author, the author keeps the flag and
/// its reason.
pub proof fn lemma_flag_stays(
    stream: StreamView,
    policy: Policy,
    action: ChatAction,
    reg_date: RegDate,
    author: Seq<char>,
)
    requires
        stream.reported.contains_key(author),
        !(action is Support && action.sender() == author),
    ensures
        stream.after_event(policy, action, reg_date).0.reported.contains_key(author),
        stream.after_event(policy, action, reg_date).0.reported[author] == stream.reported[author],
{
}

/// Every message of a flagged author who has not supported the broadcast
/// and wears no badge is reported with the author's reason, and changes
/// nothing.
pub proof fn lemma_flagged_is_reported(
    stream: StreamView,
    policy: Policy,
    action: ChatAction,
    reg_date: RegDate,
)
    requires
        action is Message,
        action->Message_badges is None,
        stream.reported.contains_key(action.sender()),
        !stream.superchated.contains(action.sender()),
    ensures
        stream.after_event(policy, action, reg_date) == (
            stream,
            Some(
                ProcessingResult {
                    message_id: action->Message_id,
                    author: action->Message_author,
                    menu_param: action->Message_context_params,
                    reason: stream.reported[action.sender()],
                },
            ),
        ),
{
}

/// Events keep the statistics well formed, given that the text of a message
/// is no longer than a text in memory can be.
pub proof fn lemma_event_keeps_wf(
    stream: StreamView,
    policy: Policy,
    action: ChatAction,
    reg_date: RegDate,
)
    requires
        stream.wf(),
        stream.admits(action),
        action is Message ==> action->Message_content@.len() <= usize::MAX,
    ensures
        stream.after_event(policy, action, reg_date).0.wf(),
{
    if action is Message {
        lemma_stripped_len(action->Message_content@);
    }
    if stream.checks(action) {
        lemma_after_message_wf(
            stream.authors[action.sender()],
            action.time() / 1000,
            stripped(action->Message_content@),
            stream.slow_mode,
            policy,
        );
    }
    let next = stream.examined(policy, action).0;
    assert forall|author: Seq<char>| #[trigger]
        next.authors.contains_key(author) implies next.authors[author].wf() by {
        if author != action.sender() {
            assert(stream.authors.contains_key(author));
        }
    }
}

/// The authors of one broadcast: who is flagged, who supported it, and the
/// statistics of everyone whose messages were taken in.
pub struct StreamData {
    authors_to_report: StringHashMap<Reason>,
    superchated_authors: StringHashSet,
    /// The place of each author's statistics in `authors`.
    places: StringHashMap<usize>,
    authors: Vec<AuthorData>,
    slow_mode: u32,
}

impl View for StreamData {
    type V = StreamView;

    closed spec fn view(&self) -> StreamView {
        StreamView {
            reported: self.authors_to_report@,
            superchated: self.superchated_authors@,
            authors: Map::new(
                |author: Seq<char>| self.places@.contains_key(author),
                |author: Seq<char>| self.authors@[self.places@[author] as int]@,
            ),
            slow_mode: self.slow_mode,
        }
    }
}

impl StreamData {
    /// Every author has a place of its own, and the statistics there are
    /// well formed.
    pub closed spec fn wf(&self) -> bool {
        &&& forall|author: Seq<char>| #[trigger]
            self.places@.contains_key(author) ==> self.places@[author] < self.authors@.len()
        &&& forall|a: Seq<char>, b: Seq<char>|
            self.places@.contains_key(a) && self.places@.contains_key(b) && self.places@[a]
                == self.places@[b] ==> a == b
        &&& forall|i: int| 0 <= i < self.authors@.len() ==> (#[trigger] self.authors@[i])@.wf()
    }

    /// A well-formed stream has a well-formed view.
    pub proof fn lemma_view_wf(&self)
        requires
            self.wf(),
        ensures
            self@.wf(),
    {
    }

    /// The state of a broadcast before its first event.
    pub fn new() -> (stream: Self)
        ensures
            stream@ == StreamView::start(),
            stream.wf(),
    {
        let stream = StreamData {
            authors_to_report: StringHashMap::with_capacity(100),
            superchated_authors: StringHashSet::with_capacity(100),
            places: StringHashMap::with_capacity(500),
            authors: Vec::new(),
            slow_mode: 0,
        };
        assert(stream@.authors =~= Map::empty());
        stream
    }

    /// Whether the event can be taken in, see [`StreamView::admits`].
    pub fn accepts(&self, action: &ChatAction) -> (b: bool)
        requires
            self.wf(),
        ensures
            b == self@.admits(*action),
    {
        match action {
            ChatAction::Message { author, timestamp, badges, .. } => {
                if badges.is_some() || self.superchated_authors.contains(author.as_str())
                    || self.authors_to_report.contains_key(author.as_str()) {
                    return true;
                }
                match self.places.get(author.as_str()) {
                    Some(place) => self.authors[*place].accepts(*timestamp / 1000),
                    None => true,
                }
            },
            _ => true,
        }
    }

    /// Takes in one event as far as it goes without a registration date,
    /// see [`StreamView::examined`].
    fn examine(&mut self, detector_params: &DetectorParams, action: ChatAction) -> (step: Step)
        requires
            old(self).wf(),
            old(self)@.admits(action),
        ensures
            final(self).wf(),
            (final(self)@, step) == old(self)@.examined(detector_params@, action),
    {
        let ghost before = self@;
        match action {
            ChatAction::Message { id, author, timestamp, content, badges, context_params } => {
                if badges.is_some() || self.superchated_authors.contains(author.as_str()) {
                    return Step::Done(None);
                }
                if let Some(reason) = self.authors_to_report.get(author.as_str()) {
                    let reason = *reason;
                    return Step::Done(
                        Some(
                            ProcessingResult {
                                message_id: id,
                                author,
                                menu_param: context_params,
                                reason,
                            },
                        ),
                    );
                }
                let timestamp: u64 = timestamp / 1000;
                let cleaned_content = detector_params.strip_message_from_emoji(content.as_str());
                let slow_mode: u32 = self.slow_mode;
                let place = match self.places.get(author.as_str()) {
                    Some(place) => Some(*place),
                    None => None,
                };
                match place {
                    Some(place) => {
                        let found = self.authors[place].check_message(
                            timestamp,
                            cleaned_content.as_str(),
                            slow_mode,
                            detector_params,
                        );
                        assert(self@.authors =~= before.authors.insert(
                            author@,
                            self.authors@[place as int]@,
                        ));
                        match found {
                            Some(reason) => Step::Lookup(
                                Suspect::Message { id, author, context_params, reason },
                            ),
                            None => Step::Done(None),
                        }
                    },
                    None => {
                        let author_data = AuthorData::new(cleaned_content, timestamp);
                        let place: usize = self.authors.len();
                        self.authors.push(author_data);
                        let ghost name = author@;
                        self.places.insert(author, place);
                        assert(self@.authors =~= before.authors.insert(
                            name,
                            self.authors@[place as int]@,
                        ));
                        Step::Done(None)
                    },
                }
            },
            ChatAction::Support { author, timestamp: _ } => {
                self.authors_to_report.remove(author.as_str());
                self.superchated_authors.insert(author);
                assert(self@.authors =~= before.authors);
                Step::Done(None)
            },
            ChatAction::RetractedMessage { author, timestamp: _ } => {
                if self.authors_to_report.contains_key(author.as_str()) {
                    return Step::Done(None);
                }
                Step::Lookup(Suspect::Retraction { author })
            },
        }
    }

    /// Flags the suspect's author where the account is new, see
    /// [`StreamView::concluded`].
    fn conclude(
        &mut self,
        detector_params: &DetectorParams,
        suspect: Suspect,
        reg_date: RegDate,
    ) -> (result: Option<ProcessingResult>)
        requires
            old(self).wf(),
        ensures
            final(self).wf(),
            (final(self)@, result) == old(self)@.concluded(detector_params@, suspect, reg_date),
    {
        let ghost before = self@;
        if !detector_params.acc_too_young(&reg_date) {
            return None;
        }
        match suspect {
            Suspect::Message { id, author, context_params, reason } => {
                self.authors_to_report.insert(author.clone(), reason);
                assert(self@.authors =~= before.authors);
                Some(
                    ProcessingResult { message_id: id, author, menu_param: context_params, reason },
                )
            },
            Suspect::Retraction { author } => {
                self.authors_to_report.insert(author, Reason::RetractedMessage);
                assert(self@.authors =~= before.authors);
                None
            },
        }
    }

    /// Takes in one event. Where the event makes its author suspect, the
    /// registration date that `reg_date_loader` has settled decides at once;
    /// where none is settled the suspect is handed back, to come again
    /// through [`StreamData::resume`] with the answer of the source.
    pub fn process_message(
        &mut self,
        detector_params: &DetectorParams,
        reg_date_loader: &RegDateLoader,
        action: ChatAction,
    ) -> (step: Step)
        requires
            old(self).wf(),
            old(self)@.admits(action),
        ensures
            final(self).wf(),
            (final(self)@, step) == old(self)@.stepped(detector_params@, reg_date_loader@, action),
    {
        match self.examine(detector_params, action) {
            Step::Lookup(suspect) => match reg_date_loader.cached(suspect.author()) {
                Some(reg_date) => Step::Done(self.conclude(detector_params, suspect, reg_date)),
                None => Step::Lookup(suspect),
            },
            Step::Done(result) => Step::Done(result),
        }
    }

    /// Ends the lookup that `process_message` asked for: `loaded` is what
    /// the source answered about the suspect's author.
    pub fn resume(
        &mut self,
        detector_params: &DetectorParams,
        reg_date_loader: &mut RegDateLoader,
        suspect: Suspect,
        loaded: Result<Option<RegDate>, String>,
    ) -> (result: Result<Option<ProcessingResult>, String>)
        requires
            old(self).wf(),
        ensures
            final(self).wf(),
            (final(self)@, final(reg_date_loader)@, result) == old(self)@.resumed(
                detector_params@,
                old(reg_date_loader)@,
                suspect,
                loaded,
            ),
    {
        match reg_date_loader.load_reg_date(suspect.author(), loaded) {
            Ok(reg_date) => Ok(self.conclude(detector_params, suspect, reg_date)),
            Err(error) => Err(error),
        }
    }

    /// Sets the least delay allowed between two messages of an author, in
    /// seconds. Zero allows any.
    pub fn set_slow_mode(&mut self, new_delay: u32)
        requires
            old(self).wf(),
        ensures
            final(self).wf(),
            final(self)@ == (StreamView { slow_mode: new_delay, ..old(self)@ }),
    {
        self.slow_mode = new_delay;
        assert(self@.authors =~= old(self)@.authors);
    }

    /// Takes every flag away. Statistics and supporters stay.
    pub fn clear_authors_to_report(&mut self)
        requires
            old(self).wf(),
        ensures
            final(self).wf(),
            final(self)@ == (StreamView { reported: Map::empty(), ..old(self)@ }),
    {
        self.authors_to_report.clear();
        assert(self@.authors =~= old(self)@.authors);
    }

    /// Whether `author` is flagged.
    pub fn is_author_spammer(&self, author: &str) -> (b: bool)
        ensures
            b == self@.reported.contains_key(author@),
    {
        self.authors_to_report.contains_key(author)
    }

    /// The flagged authors, each with the reason.
    pub fn get_spammers(&self) -> (spammers: &StringHashMap<Reason>)
        ensures
            spammers@ == self@.reported,
    {
        &self.authors_to_report
    }
}

} // verus!
