use vstd::prelude::*;
use vstd::hash_map::StringHashMap;
use crate::author_data::Reason;
use crate::chat_action::ChatAction;
use crate::detector_params::{DetectorParams, Policy};
use crate::reg_date::RegDate;
use crate::reg_date_loader::{RegDateLoader, Registry};
use crate::stream_data::{Step, StreamData, StreamView, Suspect};

pub mod author_data;
pub mod chat_action;
pub mod detector_params;
pub mod emoji;
pub mod mean_length;
pub mod message_data;
pub mod reg_date;
pub mod reg_date_loader;
pub mod stream_data;

verus! {

/// One reported message: which it was, who sent it, and why it is reported.
#[derive(Debug, PartialEq, Eq)]
pub struct ProcessingResult {
    pub message_id: String,
    pub author: String,
    pub menu_param: String,
    pub reason: Reason,
}

/// What a [`Detector`] holds, as contracts speak of it.
pub struct DetectorView {
    pub stream: StreamView,
    pub policy: Policy,
    pub registry: Registry,
}

/// The detector of one broadcast: the state of the stream, the thresholds in
/// force and the registration dates that are settled.
///
/// Events are handed in one at a time, in the order of
/// [`chat_action::sort_by_timestamp`]. The detector never asks for a
/// registration date itself: where it needs one that is not settled,
/// `process_message` hands back the suspect, and the caller brings the answer
/// of its source to `resume`.
pub struct Detector {
    stream_data: StreamData,
    params: DetectorParams,
    reg_date_loader: RegDateLoader,
}

impl View for Detector {
    type V = DetectorView;

    closed spec fn view(&self) -> DetectorView {
        DetectorView {
            stream: self.stream_data@,
            policy: self.params@,
            registry: self.reg_date_loader@,
        }
    }
}

impl Detector {
    /// The state of the stream is well formed.
    pub closed spec fn wf(&self) -> bool {
        self.stream_data.wf()
    }

    /// A detector before its first event. Unknown accounts count as
    /// registered on the earliest date that is new under `params`.
    pub fn new(params: DetectorParams) -> (detector: Self)
        ensures
            detector.wf(),
            detector@ == (DetectorView {
                stream: StreamView::start(),
                policy: params@,
                registry: Registry { cache: Map::empty(), default_reg_date: params@.min_reg_date },
            }),
    {
        let cached_loader = RegDateLoader::new(params.min_reg_date_copy());
        Detector { params, reg_date_loader: cached_loader, stream_data: StreamData::new() }
    }

    /// Whether the event can be taken in, see [`StreamView::admits`].
    pub fn accepts(&self, action: &ChatAction) -> (b: bool)
        requires
            self.wf(),
        ensures
            b == self@.stream.admits(*action),
    {
        self.stream_data.accepts(action)
    }

    /// Takes in one event, see [`StreamView::stepped`]. Thresholds and
    /// settled dates stay as they are.
    pub fn process_message(&mut self, action: ChatAction) -> (step: Step)
        requires
            old(self).wf(),
            old(self)@.stream.admits(action),
        ensures
            final(self).wf(),
            final(self)@.policy == old(self)@.policy,
            final(self)@.registry == old(self)@.registry,
            (final(self)@.stream, step) == old(self)@.stream.stepped(
                old(self)@.policy,
                old(self)@.registry,
                action,
            ),
    {
        self.stream_data.process_message(&self.params, &self.reg_date_loader, action)
    }

    /// Ends the lookup that `process_message` asked for, see
    /// [`StreamView::resumed`]: `loaded` is what the source answered about
    /// the suspect's author. After an error nothing has changed; the events
    /// taken in before stay taken in.
    pub fn resume(
        &mut self,
        suspect: Suspect,
        loaded: Result<Option<RegDate>, String>,
    ) -> (result: Result<Option<ProcessingResult>, String>)
        requires
            old(self).wf(),
        ensures
            final(self).wf(),
            final(self)@.policy == old(self)@.policy,
            (final(self)@.stream, final(self)@.registry, result) == old(self)@.stream.resumed(
                old(self)@.policy,
                old(self)@.registry,
                suspect,
                loaded,
            ),
    {
        self.stream_data.resume(&self.params, &mut self.reg_date_loader, suspect, loaded)
    }

    /// Sets the least delay allowed between two messages of an author, in
    /// seconds. Zero allows any.
    pub fn set_slow_mode(&mut self, delay: u32)
        requires
            old(self).wf(),
        ensures
            final(self).wf(),
            final(self)@ == (DetectorView {
                stream: StreamView { slow_mode: delay, ..old(self)@.stream },
                ..old(self)@
            }),
    {
        self.stream_data.set_slow_mode(delay);
    }

    /// Puts `params` in force as a whole: every flag is taken away, and
    /// accounts that are unknown from now on count as registered on the
    /// earliest date that is new under `params`. Statistics, supporters and
    /// settled dates stay.
    pub fn update_params(&mut self, params: DetectorParams)
        requires
            old(self).wf(),
        ensures
            final(self).wf(),
            final(self)@ == (DetectorView {
                stream: StreamView { reported: Map::empty(), ..old(self)@.stream },
                policy: params@,
                registry: Registry {
                    default_reg_date: params@.min_reg_date,
                    ..old(self)@.registry
                },
            }),
    {
        self.reg_date_loader.update_default_reg_date(params.min_reg_date_copy());
        self.params = params;
        self.stream_data.clear_authors_to_report();
    }

    /// Whether `author` is flagged.
    pub fn is_author_spammer(&self, author: &str) -> (b: bool)
        ensures
            b == self@.stream.reported.contains_key(author@),
    {
        self.stream_data.is_author_spammer(author)
    }

    /// The flagged authors, each with the reason.
    pub fn get_spammers(&self) -> (spammers: &StringHashMap<Reason>)
        ensures
            spammers@ == self@.stream.reported,
    {
        self.stream_data.get_spammers()
    }
}

} // verus!
