//! The sync orchestrator as a state machine. A run asks for one piece of
//! outside work at a time (an `Action`) and is told how it went (an
//! `Event`); every decision between the two is taken here.

use crate::collection::{
    collection_views, find_collection, link_url, link_url_of, listing_url, listing_url_of,
    located, Collection, CollectionInfo,
};
use crate::endpoint::{Candidates, Endpoints};
use crate::files::{file_views, FileInfo, LocalFile};
use crate::queue::{by_modified, images, lemma_by_modified_ordered, oldest_first, upload_queue};
use crate::ledger::{lemma_with_name, name_views, with_name, Ledger};
use crate::upload::{upload_of, Outcome, Upload, UploadOutcome, UploadRequest};
use vstd::prelude::*;

verus! {

/// Why a run stopped before it took any file, or between two files.
#[derive(Clone, Copy, Debug, PartialEq, Eq, Structural)]
pub enum AbortReason {
    /// Neither candidate server can be used.
    NoEndpoint,
    /// The server's collections could not be listed.
    ListingFailed,
    /// No collection has the wanted name.
    CollectionNotFound,
    /// The local directory is missing or cannot be listed.
    SourceUnavailable,
    /// The ledger could not be written.
    LedgerNotSaved,
}

/// Where a run stands.
#[derive(Clone, Copy, Debug, PartialEq, Eq, Structural)]
pub enum Phase {
    /// Nothing has been asked yet.
    Init,
    /// The primary server is being probed.
    Resolving,
    /// The server's collections are being listed.
    Locating,
    /// The local directory is being listed.
    Scanning,
    /// The file in flight is being uploaded.
    Uploading,
    /// The asset of the file in flight is being linked into the collection.
    Linking,
    /// The ledger that records the file in flight is being written.
    Committing,
    /// Every file has been dealt with.
    Done,
    /// The run stopped early.
    Aborted(AbortReason),
}

/// How a piece of outside work went.
#[derive(Clone, Debug)]
pub enum Event {
    /// The run is to begin.
    Start,
    /// The probe of the primary server ended; `reachable` says whether the
    /// server answered at all.
    ProbeFinished { reachable: bool },
    /// The server's collections, or `None` if the listing failed.
    CollectionsListed(Option<Vec<Collection>>),
    /// The files of the local directory, or `None` if it could not be
    /// listed.
    Scanned(Option<Vec<LocalFile>>),
    /// The upload of the file in flight ended.
    Uploaded(UploadOutcome),
    /// The link request ended; `linked` says whether it succeeded.
    LinkFinished { linked: bool },
    /// The write of the ledger ended; `saved` says whether it succeeded.
    Persisted { saved: bool },
}

/// An event as mathematical values.
pub enum Signal {
    Start,
    ProbeFinished { reachable: bool },
    CollectionsListed(Option<Seq<CollectionInfo>>),
    Scanned(Option<Seq<FileInfo>>),
    Uploaded(Outcome),
    LinkFinished { linked: bool },
    Persisted { saved: bool },
}

impl View for Event {
    type V = Signal;

    open spec fn view(&self) -> Signal {
        match self {
            Event::Start => Signal::Start,
            Event::ProbeFinished { reachable } => Signal::ProbeFinished { reachable: *reachable },
            Event::CollectionsListed(Some(listing)) => Signal::CollectionsListed(
                Some(collection_views(listing@)),
            ),
            Event::CollectionsListed(None) => Signal::CollectionsListed(None),
            Event::Scanned(Some(files)) => Signal::Scanned(Some(file_views(files@))),
            Event::Scanned(None) => Signal::Scanned(None),
            Event::Uploaded(outcome) => Signal::Uploaded(outcome@),
            Event::LinkFinished { linked } => Signal::LinkFinished { linked: *linked },
            Event::Persisted { saved } => Signal::Persisted { saved: *saved },
        }
    }
}

/// The outside work that a run waits for.
#[derive(Clone, Debug, PartialEq, Eq)]
pub enum Action {
    /// Nothing yet: the run waits for `Event::Start`.
    Begin,
    /// Probe the primary server at `url`, without a credential and within
    /// the probe timeout. Answer with `Event::ProbeFinished`.
    Probe { url: String },
    /// List the server's collections at `url`. Answer with
    /// `Event::CollectionsListed`.
    ListCollections { url: String, api_key: String },
    /// List the local directory. Answer with `Event::Scanned`.
    Scan,
    /// Send this upload. Answer with `Event::Uploaded`.
    Upload(UploadRequest),
    /// Link the assets `asset_ids` into the collection at `url`. Answer with
    /// `Event::LinkFinished`.
    Link { url: String, api_key: String, asset_ids: Vec<String> },
    /// Replace the ledger file by what `ledger` encodes to. Answer with
    /// `Event::Persisted`.
    Persist { ledger: Ledger },
    /// The run is complete; `processed` files were newly synchronised.
    Finish { processed: usize },
    /// The run stopped early.
    Abort { reason: AbortReason },
}

/// An action as mathematical values.
pub enum Task {
    Begin,
    Probe { url: Seq<char> },
    ListCollections { url: Seq<char>, api_key: Seq<char> },
    Scan,
    Upload(Upload),
    Link { url: Seq<char>, api_key: Seq<char>, asset_ids: Seq<Seq<char>> },
    Persist { names: Seq<Seq<char>> },
    Finish { processed: nat },
    Abort { reason: AbortReason },
}

impl View for Action {
    type V = Task;

    open spec fn view(&self) -> Task {
        match self {
            Action::Begin => Task::Begin,
            Action::Probe { url } => Task::Probe { url: url@ },
            Action::ListCollections { url, api_key } => Task::ListCollections {
                url: url@,
                api_key: api_key@,
            },
            Action::Scan => Task::Scan,
            Action::Upload(request) => Task::Upload(request@),
            Action::Link { url, api_key, asset_ids } => Task::Link {
                url: url@,
                api_key: api_key@,
                asset_ids: name_views(asset_ids@),
            },
            Action::Persist { ledger } => Task::Persist { names: ledger@ },
            Action::Finish { processed } => Task::Finish { processed: *processed as nat },
            Action::Abort { reason } => Task::Abort { reason: *reason },
        }
    }
}

/// A run as mathematical values.
pub struct RunState {
    /// The two candidate servers.
    pub candidates: Candidates,
    /// The credential.
    pub api_key: Seq<char>,
    /// The name of the collection that takes the assets.
    pub collection_name: Seq<char>,
    /// Where the run stands.
    pub phase: Phase,
    /// The server of this run, once resolved.
    pub base_url: Seq<char>,
    /// The collection's identifier, once located.
    pub collection_id: Seq<char>,
    /// The recorded names, in the order of recording.
    pub ledger: Seq<Seq<char>>,
    /// The names that the ledger file holds: the ledger as it was loaded or
    /// last written.
    pub stored: Seq<Seq<char>>,
    /// The image files of the directory, oldest first, once scanned.
    pub queue: Seq<FileInfo>,
    /// The place in `queue` of the file in flight.
    pub cursor: int,
    /// The asset that is being linked.
    pub asset_id: Seq<char>,
    /// The number of files newly synchronised by this run.
    pub processed: nat,
}

/// The place of the first file at or after `from` whose name the ledger does
/// not hold; the length of the queue if there is none.
pub open spec fn first_unrecorded(queue: Seq<FileInfo>, ledger: Seq<Seq<char>>, from: int) -> int
    decreases queue.len() - from,
{
    if from >= queue.len() {
        queue.len() as int
    } else if !ledger.contains(queue[from].filename) {
        from
    } else {
        first_unrecorded(queue, ledger, from + 1)
    }
}

impl RunState {
    /// A run that has not begun.
    pub open spec fn initial(
        candidates: Candidates,
        api_key: Seq<char>,
        collection_name: Seq<char>,
        ledger: Seq<Seq<char>>,
    ) -> RunState {
        RunState {
            candidates,
            api_key,
            collection_name,
            phase: Phase::Init,
            base_url: Seq::empty(),
            collection_id: Seq::empty(),
            ledger,
            stored: ledger,
            queue: Seq::empty(),
            cursor: 0,
            asset_id: Seq::empty(),
            processed: 0,
        }
    }

    /// The file in flight.
    pub open spec fn current(self) -> FileInfo {
        self.queue[self.cursor]
    }

    /// Whether a file is in flight.
    pub open spec fn in_flight(self) -> bool {
        self.phase is Uploading || self.phase is Linking || self.phase is Committing
    }

    /// How far the run has come: the phases in the order in which a run
    /// passes through them, the three phases of a file in flight counted as
    /// one.
    pub open spec fn stage(self) -> int {
        match self.phase {
            Phase::Init => 0,
            Phase::Resolving => 1,
            Phase::Locating => 2,
            Phase::Scanning => 3,
            Phase::Uploading => 4,
            Phase::Linking => 4,
            Phase::Committing => 4,
            Phase::Done => 5,
            Phase::Aborted(_) => 5,
        }
    }

    /// Whether the run has ended.
    pub open spec fn ended(self) -> bool {
        self.phase is Done || self.phase is Aborted
    }

    /// Whether the ledger file is behind the ledger by the file in flight:
    /// a file of the queue whose name the ledger holds last and the ledger
    /// file lacks.
    pub open spec fn unsaved_in_flight(self) -> bool {
        &&& self.cursor < self.queue.len()
        &&& self.ledger == self.stored.push(self.current().filename)
    }

    /// What holds of every run: the ledger holds no name twice, the ledger
    /// file holds the ledger but for a file that is being committed, the
    /// queue is ordered, the file in flight is a file of the queue that the
    /// ledger does not hold until it is committed, and no more files are
    /// counted than were passed.
    pub open spec fn wf(self) -> bool {
        &&& self.ledger.no_duplicates()
        &&& self.ledger == self.stored || ((self.phase is Committing || self.phase is Aborted)
            && self.unsaved_in_flight())
        &&& oldest_first(self.queue)
        &&& 0 <= self.cursor <= self.queue.len()
        &&& self.processed <= self.cursor
        &&& self.in_flight() ==> self.cursor < self.queue.len()
        &&& (self.phase is Uploading || self.phase is Linking) ==> !self.ledger.contains(
            self.current().filename,
        )
        &&& self.phase is Committing ==> self.unsaved_in_flight() && self.ledger.contains(
            self.current().filename,
        )
        &&& self.phase is Done ==> self.cursor == self.queue.len()
        &&& (self.phase is Init || self.phase is Resolving || self.phase is Locating
            || self.phase is Scanning) ==> self.queue.len() == 0 && self.processed == 0
    }

    /// The run with its server chosen, or aborted for want of one.
    pub open spec fn settled(self, reachable: bool) -> RunState {
        match self.candidates.resolved(reachable) {
            Some(url) => RunState { base_url: url, phase: Phase::Locating, ..self },
            None => RunState { phase: Phase::Aborted(AbortReason::NoEndpoint), ..self },
        }
    }

    /// The run turned to the first file at or after `from` that the ledger
    /// does not hold, or done if there is none.
    pub open spec fn moved_on(self, from: int) -> RunState {
        let cursor = first_unrecorded(self.queue, self.ledger, from);
        RunState {
            cursor,
            phase: if cursor < self.queue.len() {
                Phase::Uploading
            } else {
                Phase::Done
            },
            ..self
        }
    }

    /// The run with the file in flight recorded; the ledger is then to be
    /// written.
    pub open spec fn committed(self) -> RunState {
        RunState {
            ledger: with_name(self.ledger, self.current().filename),
            phase: Phase::Committing,
            ..self
        }
    }

    /// The run after an event. An event that does not answer what the run
    /// waits for leaves it as it is.
    pub open spec fn next(self, event: Signal) -> RunState {
        match (self.phase, event) {
            (Phase::Init, Signal::Start) => {
                if self.candidates.needs_probe() {
                    RunState { phase: Phase::Resolving, ..self }
                } else {
                    self.settled(false)
                }
            },
            (Phase::Resolving, Signal::ProbeFinished { reachable }) => self.settled(reachable),
            (Phase::Locating, Signal::CollectionsListed(Some(listing))) => {
                match located(listing, self.collection_name) {
                    Some(id) => RunState { collection_id: id, phase: Phase::Scanning, ..self },
                    None => RunState {
                        phase: Phase::Aborted(AbortReason::CollectionNotFound),
                        ..self
                    },
                }
            },
            (Phase::Locating, Signal::CollectionsListed(None)) => RunState {
                phase: Phase::Aborted(AbortReason::ListingFailed),
                ..self
            },
            (Phase::Scanning, Signal::Scanned(Some(files))) => {
                (RunState { queue: by_modified(images(files)), ..self }).moved_on(0)
            },
            (Phase::Scanning, Signal::Scanned(None)) => RunState {
                phase: Phase::Aborted(AbortReason::SourceUnavailable),
                ..self
            },
            (Phase::Uploading, Signal::Uploaded(outcome)) => {
                if !outcome.recorded() {
                    self.moved_on(self.cursor + 1)
                } else {
                    match outcome.link_target() {
                        Some(id) => RunState { asset_id: id, phase: Phase::Linking, ..self },
                        None => self.committed(),
                    }
                }
            },
            (Phase::Linking, Signal::LinkFinished { linked }) => self.committed(),
            (Phase::Committing, Signal::Persisted { saved }) => {
                if saved {
                    (RunState {
                        stored: self.ledger,
                        processed: self.processed + 1,
                        ..self
                    }).moved_on(self.cursor + 1)
                } else {
                    RunState { phase: Phase::Aborted(AbortReason::LedgerNotSaved), ..self }
                }
            },
            _ => self,
        }
    }

    /// The outside work that the run waits for.
    pub open spec fn pending(self) -> Task {
        match self.phase {
            Phase::Init => Task::Begin,
            Phase::Resolving => Task::Probe { url: self.candidates.probe_url() },
            Phase::Locating => Task::ListCollections {
                url: listing_url(self.base_url),
                api_key: self.api_key,
            },
            Phase::Scanning => Task::Scan,
            Phase::Uploading => Task::Upload(
                upload_of(self.current(), self.base_url, self.api_key),
            ),
            Phase::Linking => Task::Link {
                url: link_url(self.base_url, self.collection_id),
                api_key: self.api_key,
                asset_ids: seq![self.asset_id],
            },
            Phase::Committing => Task::Persist { names: self.ledger },
            Phase::Done => Task::Finish { processed: self.processed },
            Phase::Aborted(reason) => Task::Abort { reason },
        }
    }
}

/// One run of the synchronisation.
pub struct SyncRun {
    endpoints: Endpoints,
    api_key: String,
    collection_name: String,
    phase: Phase,
    base_url: String,
    collection_id: String,
    ledger: Ledger,
    stored: Ghost<Seq<Seq<char>>>,
    queue: Vec<LocalFile>,
    cursor: usize,
    asset_id: String,
    processed: usize,
}

impl View for SyncRun {
    type V = RunState;

    closed spec fn view(&self) -> RunState {
        RunState {
            candidates: self.endpoints@,
            api_key: self.api_key@,
            collection_name: self.collection_name@,
            phase: self.phase,
            base_url: self.base_url@,
            collection_id: self.collection_id@,
            ledger: self.ledger@,
            stored: self.stored@,
            queue: file_views(self.queue@),
            cursor: self.cursor as int,
            asset_id: self.asset_id@,
            processed: self.processed as nat,
        }
    }
}

impl SyncRun {
    /// The run is well formed.
    pub open spec fn wf(&self) -> bool {
        self@.wf()
    }

    /// A run that has not begun: it will use the first usable server of
    /// `endpoints`, put assets into the collection named `collection_name`,
    /// and pass over the files that `ledger` holds.
    pub fn new(endpoints: Endpoints, api_key: String, collection_name: String, ledger: Ledger) -> (r:
        SyncRun)
        requires
            ledger.wf(),
        ensures
            r.wf(),
            r@ == RunState::initial(endpoints@, api_key@, collection_name@, ledger@),
    {
        let ghost stored = ledger@;
        let r = SyncRun {
            endpoints,
            api_key,
            collection_name,
            phase: Phase::Init,
            base_url: String::new(),
            collection_id: String::new(),
            ledger,
            stored: Ghost(stored),
            queue: Vec::new(),
            cursor: 0,
            asset_id: String::new(),
            processed: 0,
        };
        assert(file_views(r.queue@) =~= Seq::<FileInfo>::empty());
        r
    }

    /// Where the run stands.
    pub fn phase(&self) -> (r: Phase)
        ensures
            r == self@.phase,
    {
        self.phase
    }

    /// The number of files that this run has newly synchronised.
    pub fn processed(&self) -> (r: usize)
        ensures
            r == self@.processed,
    {
        self.processed
    }

    /// The ledger as it stands.
    pub fn ledger(&self) -> (r: &Ledger)
        ensures
            r@ == self@.ledger,
    {
        &self.ledger
    }

    /// The server of this run; empty until one is chosen.
    pub fn base_url(&self) -> (r: &str)
        ensures
            r@ == self@.base_url,
    {
        self.base_url.as_str()
    }

    /// The identifier of the collection; empty until it is located.
    pub fn collection_id(&self) -> (r: &str)
        ensures
            r@ == self@.collection_id,
    {
        self.collection_id.as_str()
    }

    /// Whether the run has ended.
    pub fn is_ended(&self) -> (r: bool)
        ensures
            r == self@.ended(),
    {
        match self.phase {
            Phase::Done => true,
            Phase::Aborted(_) => true,
            _ => false,
        }
    }

    /// The place of the first file at or after `from` that the ledger does
    /// not hold.
    fn first_unrecorded_from(&self, from: usize) -> (r: usize)
        requires
            from <= self.queue@.len(),
        ensures
            r == first_unrecorded(self@.queue, self@.ledger, from as int),
            from <= r <= self.queue@.len(),
    {
        let mut at: usize = from;
        while at < self.queue.len() && self.ledger.contains(self.queue[at].filename.as_str())
            invariant
                from <= at <= self.queue@.len(),
                first_unrecorded(self@.queue, self@.ledger, from as int) == first_unrecorded(
                    self@.queue,
                    self@.ledger,
                    at as int,
                ),
            decreases self.queue@.len() - at,
        {
            at = at + 1;
        }
        at
    }

    /// Chooses the server, or stops the run for want of one.
    fn settle(&mut self, reachable: bool)
        ensures
            final(self)@ == old(self)@.settled(reachable),
    {
        match self.endpoints.resolve(reachable) {
            Some(url) => {
                self.base_url = url;
                self.phase = Phase::Locating;
            },
            None => {
                self.phase = Phase::Aborted(AbortReason::NoEndpoint);
            },
        }
    }

    /// Turns to the next file that the ledger does not hold, or ends the run.
    fn move_on(&mut self, from: usize)
        requires
            from <= old(self).queue@.len(),
        ensures
            final(self)@ == old(self)@.moved_on(from as int),
    {
        let at: usize = self.first_unrecorded_from(from);
        self.cursor = at;
        if at < self.queue.len() {
            self.phase = Phase::Uploading;
        } else {
            self.phase = Phase::Done;
        }
    }

    /// Records the file in flight and asks for the ledger to be written.
    fn commit(&mut self)
        requires
            old(self).cursor < old(self).queue@.len(),
            old(self).ledger.wf(),
        ensures
            final(self)@ == old(self)@.committed(),
    {
        self.ledger.record(self.queue[self.cursor].filename.as_str());
        self.phase = Phase::Committing;
    }

    /// The outside work that the run waits for.
    pub fn action(&self) -> (r: Action)
        requires
            self.wf(),
        ensures
            r@ == self@.pending(),
    {
        match self.phase {
            Phase::Init => Action::Begin,
            Phase::Resolving => Action::Probe { url: self.endpoints.probe_url() },
            Phase::Locating => Action::ListCollections {
                url: listing_url_of(self.base_url.as_str()),
                api_key: self.api_key.clone(),
            },
            Phase::Scanning => Action::Scan,
            Phase::Uploading => Action::Upload(
                UploadRequest::for_file(
                    &self.queue[self.cursor],
                    self.base_url.as_str(),
                    self.api_key.as_str(),
                ),
            ),
            Phase::Linking => {
                let mut asset_ids: Vec<String> = Vec::new();
                asset_ids.push(self.asset_id.clone());
                assert(name_views(asset_ids@) =~= seq![self.asset_id@]);
                Action::Link {
                    url: link_url_of(self.base_url.as_str(), self.collection_id.as_str()),
                    api_key: self.api_key.clone(),
                    asset_ids,
                }
            },
            Phase::Committing => Action::Persist { ledger: self.ledger.snapshot() },
            Phase::Done => Action::Finish { processed: self.processed },
            Phase::Aborted(reason) => Action::Abort { reason },
        }
    }

    /// Takes in an event and answers with the outside work to do next. An
    /// event that does not answer what the run waits for changes nothing.
    pub fn step(&mut self, event: Event) -> (r: Action)
        requires
            old(self).wf(),
        ensures
            final(self).wf(),
            final(self)@ == old(self)@.next(event@),
            r@ == final(self)@.pending(),
            forall|name: Seq<char>|
                old(self)@.ledger.contains(name) ==> final(self)@.ledger.contains(name),
            forall|name: Seq<char>|
                old(self)@.stored.contains(name) ==> final(self)@.stored.contains(name),
    {
        proof {
            lemma_next_keeps_wf(self@, event@);
            lemma_next_keeps_names(self@, event@);
        }
        match event {
            Event::Start => {
                match self.phase {
                    Phase::Init => {
                        if self.endpoints.needs_probe() {
                            self.phase = Phase::Resolving;
                        } else {
                            self.settle(false);
                        }
                    },
                    _ => {},
                }
            },
            Event::ProbeFinished { reachable } => {
                match self.phase {
                    Phase::Resolving => {
                        self.settle(reachable);
                    },
                    _ => {},
                }
            },
            Event::CollectionsListed(listing) => {
                match self.phase {
                    Phase::Locating => {
                        match listing {
                            Some(collections) => {
                                match find_collection(&collections, self.collection_name.as_str()) {
                                    Some(id) => {
                                        self.collection_id = id;
                                        self.phase = Phase::Scanning;
                                    },
                                    None => {
                                        self.phase = Phase::Aborted(
                                            AbortReason::CollectionNotFound,
                                        );
                                    },
                                }
                            },
                            None => {
                                self.phase = Phase::Aborted(AbortReason::ListingFailed);
                            },
                        }
                    },
                    _ => {},
                }
            },
            Event::Scanned(listing) => {
                match self.phase {
                    Phase::Scanning => {
                        match listing {
                            Some(files) => {
                                self.queue = upload_queue(files);
                                self.move_on(0);
                            },
                            None => {
                                self.phase = Phase::Aborted(AbortReason::SourceUnavailable);
                            },
                        }
                    },
                    _ => {},
                }
            },
            Event::Uploaded(outcome) => {
                match self.phase {
                    Phase::Uploading => {
                        assert(self.cursor < self.queue.len());
                        if !outcome.is_recorded() {
                            let from: usize = self.cursor + 1;
                            self.move_on(from);
                        } else {
                            match outcome.link_target() {
                                Some(id) => {
                                    self.asset_id = id;
                                    self.phase = Phase::Linking;
                                },
                                None => {
                                    self.commit();
                                },
                            }
                        }
                    },
                    _ => {},
                }
            },
            Event::LinkFinished { linked } => {
                match self.phase {
                    Phase::Linking => {
                        self.commit();
                    },
                    _ => {},
                }
            },
            Event::Persisted { saved } => {
                match self.phase {
                    Phase::Committing => {
                        assert(self.processed <= self.cursor < self.queue.len());
                        if saved {
                            let from: usize = self.cursor + 1;
                            self.stored = Ghost(self.ledger@);
                            self.processed = self.processed + 1;
                            self.move_on(from);
                        } else {
                            self.phase = Phase::Aborted(AbortReason::LedgerNotSaved);
                        }
                    },
                    _ => {},
                }
            },
        }
        self.action()
    }
}

/// The place that `first_unrecorded` gives is at or after `from`, within the
/// queue, at a file that the ledger does not hold, and every file between
/// `from` and it is held.
pub proof fn lemma_first_unrecorded(queue: Seq<FileInfo>, ledger: Seq<Seq<char>>, from: int)
    requires
        0 <= from <= queue.len(),
    ensures
        from <= first_unrecorded(queue, ledger, from) <= queue.len(),
        first_unrecorded(queue, ledger, from) < queue.len() ==> !ledger.contains(
            queue[first_unrecorded(queue, ledger, from)].filename,
        ),
        forall|k: int|
            from <= k < first_unrecorded(queue, ledger, from) ==> ledger.contains(
                (#[trigger] queue[k]).filename,
            ),
    decreases queue.len() - from,
{
    if from < queue.len() && ledger.contains(queue[from].filename) {
        lemma_first_unrecorded(queue, ledger, from + 1);
    }
}

/// Whatever the event, a well-formed run stays well formed.
pub proof fn lemma_next_keeps_wf(state: RunState, event: Signal)
    requires
        state.wf(),
    ensures
        state.next(event).wf(),
{
    match (state.phase, event) {
        (Phase::Scanning, Signal::Scanned(Some(files))) => {
            let queue = by_modified(images(files));
            lemma_by_modified_ordered(images(files));
            lemma_first_unrecorded(queue, state.ledger, 0);
        },
        (Phase::Uploading, Signal::Uploaded(outcome)) => {
            lemma_first_unrecorded(state.queue, state.ledger, state.cursor + 1);
            lemma_with_name(state.ledger, state.current().filename);
        },
        (Phase::Linking, Signal::LinkFinished { linked }) => {
            lemma_with_name(state.ledger, state.current().filename);
        },
        (Phase::Committing, Signal::Persisted { saved }) => {
            lemma_first_unrecorded(state.queue, state.ledger, state.cursor + 1);
        },
        _ => {},
    }
}

/// A run never goes back: no event takes it to an earlier stage. So the
/// server is chosen once, the collection is located once, and the directory
/// is scanned once.
pub proof fn lemma_next_never_goes_back(state: RunState, event: Signal)
    ensures
        state.next(event).stage() >= state.stage(),
{
}

/// The ledger file never holds more than the ledger: each of its names is
/// in the ledger, and none stands twice.
pub proof fn lemma_stored_within_ledger(state: RunState)
    requires
        state.wf(),
    ensures
        state.stored.no_duplicates(),
        forall|name: Seq<char>| state.stored.contains(name) ==> state.ledger.contains(name),
{
    if state.ledger != state.stored {
        assert forall|i: int, j: int|
            0 <= i < state.stored.len() && 0 <= j < state.stored.len() && i != j implies state.stored[i]
            != state.stored[j] by {
            assert(state.ledger[i] == state.stored[i]);
            assert(state.ledger[j] == state.stored[j]);
        }
        assert forall|name: Seq<char>| state.stored.contains(name) implies state.ledger.contains(
            name,
        ) by {
            let i = choose|i: int| 0 <= i < state.stored.len() && state.stored[i] == name;
            assert(state.ledger[i] == name);
        }
    }
}

/// No event takes a name out of the ledger, and none takes a name out of
/// the ledger file of a well-formed run.
pub proof fn lemma_next_keeps_names(state: RunState, event: Signal)
    ensures
        forall|name: Seq<char>|
            state.ledger.contains(name) ==> #[trigger] state.next(event).ledger.contains(name),
        state.wf() ==> forall|name: Seq<char>|
            state.stored.contains(name) ==> #[trigger] state.next(event).stored.contains(name),
{
    lemma_with_name(state.ledger, state.current().filename);
    if state.wf() {
        lemma_stored_within_ledger(state);
    }
}

} // verus!
