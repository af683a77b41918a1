//! The uploader: what to ask of CloudWatch Logs next, and what to make of its
//! answers.
//!
//! The service wants each PutLogEvents call to carry the sequence token that
//! the previous call for the stream returned. The uploader keeps that token.
//! It learns it from DescribeLogStreams, creating the stream where it is
//! missing, and learns it anew after a call has failed. It makes no call
//! itself: it hands out one request at a time, and takes the answer to it.

use vstd::prelude::*;
use crate::batcher::within_limits;
use crate::configuration::Configuration;
use crate::event::{lemma_total_weight_subrange, LogEvent};
use crate::grouping::{
    do_group_events, group_start, group_views, grouping_of, in_time_order, is_grouping,
    is_stable_sort, lemma_group_in_flatten, lemma_grouping_spans, lemma_stable_sort_unique,
    GROUP_SPAN_MS,
};

verus! {

/// A log stream as DescribeLogStreams reports it.
#[derive(Clone, Debug, PartialEq, Eq)]
pub struct LogStream {
    pub log_stream_name: Option<String>,
    pub upload_sequence_token: Option<String>,
}

/// A call that the owner of the uploader is to make.
#[derive(Debug, PartialEq, Eq)]
pub enum Request {
    DescribeLogStreams { log_group_name: String, log_stream_name_prefix: String, limit: i32 },
    CreateLogStream { log_group_name: String, log_stream_name: String },
    PutLogEvents {
        log_group_name: String,
        log_stream_name: String,
        sequence_token: Option<String>,
        log_events: Vec<LogEvent>,
    },
}

/// The answer to a call. A failed call answers with the text of its error.
#[derive(Debug, PartialEq, Eq)]
pub enum Response {
    /// The streams that DescribeLogStreams found.
    DescribeLogStreams(Result<Option<Vec<LogStream>>, String>),
    CreateLogStream(Result<(), String>),
    /// The next sequence token that PutLogEvents returned.
    PutLogEvents(Result<Option<String>, String>),
}

/// What the uploader waits for.
#[derive(Clone, Copy, Debug, PartialEq, Eq, Structural)]
pub enum Phase {
    /// The answer to the first DescribeLogStreams of a refresh.
    Probing,
    /// The answer to CreateLogStream.
    Creating,
    /// The answer to the DescribeLogStreams that follows CreateLogStream.
    Reprobing,
    /// Nothing: no call is under way.
    Idle,
    /// The answer to PutLogEvents.
    Putting,
}

/// Where the uploader stands with its sequence token.
#[derive(Clone, Copy, Debug, PartialEq, Eq, Structural)]
pub enum Status {
    /// Just made; the first refresh of the token is under way.
    Init,
    /// The token was refreshed, or returned by the last call.
    Ready,
    /// A PutLogEvents call failed; the refresh that follows is under way.
    Failed,
}

/// Number of streams that a DescribeLogStreams call asks for.
pub const DESCRIBE_LIMIT: i32 = 1;

/// The stream named `name` in the answer to DescribeLogStreams: the first
/// stream of the answer, if it carries exactly that name.
pub open spec fn stream_in(answer: Result<Option<Vec<LogStream>>, String>, name: Seq<char>) -> Option<
    LogStream,
> {
    match answer {
        Ok(Some(streams)) => if streams@.len() > 0 && (streams@[0].log_stream_name matches Some(
            found,
        ) && found@ == name) {
            Some(streams@[0])
        } else {
            None
        },
        _ => None,
    }
}

/// The DescribeLogStreams call for the stream of `conf`.
pub open spec fn describe_request(conf: Configuration) -> Request {
    Request::DescribeLogStreams {
        log_group_name: conf.log_group_name,
        log_stream_name_prefix: conf.log_stream_name,
        limit: DESCRIBE_LIMIT,
    }
}

/// The CreateLogStream call for the stream of `conf`.
pub open spec fn create_request(conf: Configuration) -> Request {
    Request::CreateLogStream {
        log_group_name: conf.log_group_name,
        log_stream_name: conf.log_stream_name,
    }
}

/// `request` is the PutLogEvents call that sends `events` to the stream of
/// `conf` with the sequence token `token`.
pub open spec fn is_put_request(
    request: Request,
    conf: Configuration,
    token: Option<String>,
    events: Seq<LogEvent>,
) -> bool {
    request matches Request::PutLogEvents {
        log_group_name,
        log_stream_name,
        sequence_token,
        log_events,
    } && log_group_name == conf.log_group_name && log_stream_name == conf.log_stream_name
        && sequence_token == token && log_events@ == events
}

/// `events` may go out in one PutLogEvents call: there is at least one, they
/// are in time order and span sixteen hours at most, and they are within the
/// limits of a batch for a buffer that is closed at `max_events` events.
pub open spec fn fits_one_call(events: Seq<LogEvent>, max_events: nat) -> bool {
    &&& events.len() > 0
    &&& in_time_order(events)
    &&& forall|i: int, j: int|
        0 <= i < events.len() && 0 <= j < events.len() ==> #[trigger] events[i].timestamp
            - #[trigger] events[j].timestamp <= GROUP_SPAN_MS
    &&& within_limits(events, max_events)
}

/// A batch that a buffer has handed out is in time order and within the
/// limits of a batch. Grouping leaves its events where they are, and each
/// group may go out in one call.
pub proof fn lemma_groups_of_a_batch_fit_one_call(
    batch: Seq<LogEvent>,
    max_events: nat,
    groups: Seq<Seq<LogEvent>>,
    g: int,
)
    requires
        in_time_order(batch),
        within_limits(batch, max_events),
        is_grouping(batch, groups),
        0 <= g < groups.len(),
    ensures
        groups.flatten() == batch,
        fits_one_call(groups[g], max_events),
{
    assert(is_stable_sort(batch, batch));
    lemma_stable_sort_unique(batch, groups.flatten(), batch);
    lemma_group_in_flatten(groups, g);
    let start = group_start(groups, g);
    let group = groups[g];
    assert(group == batch.subrange(start, start + group.len()));
    lemma_total_weight_subrange(batch, start, start + group.len());
    assert(in_time_order(group)) by {
        assert forall|i: int, j: int| 0 <= i <= j < group.len() implies group[i].timestamp
            <= group[j].timestamp by {
            assert(group[i] == batch[start + i] && group[j] == batch[start + j]);
        }
    }
    assert forall|i: int, j: int| 0 <= i < group.len() && 0 <= j < group.len() implies
        #[trigger] group[i].timestamp - #[trigger] group[j].timestamp <= GROUP_SPAN_MS by {
        lemma_grouping_spans(batch, groups, g, i, j);
    }
}

/// Picks the stream of the given name out of the answer to
/// DescribeLogStreams.
pub fn select_log_stream(answer: Result<Option<Vec<LogStream>>, String>, name: &String) -> (found:
    Option<LogStream>)
    ensures
        found == stream_in(answer, name@),
{
    match answer {
        Ok(Some(streams)) => {
            let mut streams = streams;
            if streams.len() > 0 {
                let matches = match &streams[0].log_stream_name {
                    Some(found) => *found == *name,
                    None => false,
                };
                if matches {
                    let ghost first = streams@[0];
                    let stream = streams.swap_remove(0);
                    assert(stream == first);
                    return Some(stream);
                }
            }
            None
        },
        _ => None,
    }
}

/// The uploader, as contracts see it.
pub struct UploaderView {
    pub conf: Configuration,
    /// The sequence token for the next PutLogEvents call, if one is known.
    pub token: Option<String>,
    pub phase: Phase,
    /// Whether the refresh that is under way follows a failed call.
    pub failed: bool,
    /// The groups that wait for their call, first to go first.
    pub queue: Seq<Seq<LogEvent>>,
}

/// The call that a step asks for.
pub enum Ask {
    Nothing,
    Describe,
    Create,
    /// PutLogEvents with these events.
    Put(Seq<LogEvent>),
}

/// The uploader with `token` as its sequence token and no call under way:
/// the next group that waits is sent at once.
pub open spec fn settled(view: UploaderView, token: Option<String>) -> (UploaderView, Ask) {
    if view.queue.len() > 0 {
        (
            UploaderView { token, phase: Phase::Putting, queue: view.queue.drop_first(), ..view },
            Ask::Put(view.queue[0]),
        )
    } else {
        (UploaderView { token, phase: Phase::Idle, ..view }, Ask::Nothing)
    }
}

/// What an answer makes of the uploader, and the call that follows.
///
/// A refresh describes the stream and takes its token. Where the stream is
/// missing it is created and described once more; if it is still missing,
/// the uploader goes on without a token. A call that succeeded leaves the
/// token for the next. A call that failed is not made again: its events are
/// given up, and the token is refreshed. An answer that the uploader does not
/// wait for changes nothing.
pub open spec fn step(view: UploaderView, response: Response) -> (UploaderView, Ask) {
    match (view.phase, response) {
        (Phase::Probing, Response::DescribeLogStreams(answer)) => match stream_in(
            answer,
            view.conf.log_stream_name@,
        ) {
            Some(stream) => settled(view, stream.upload_sequence_token),
            None => (UploaderView { phase: Phase::Creating, ..view }, Ask::Create),
        },
        (Phase::Creating, Response::CreateLogStream(_)) => (
            UploaderView { phase: Phase::Reprobing, ..view },
            Ask::Describe,
        ),
        (Phase::Reprobing, Response::DescribeLogStreams(answer)) => match stream_in(
            answer,
            view.conf.log_stream_name@,
        ) {
            Some(stream) => settled(view, stream.upload_sequence_token),
            None => settled(view, None),
        },
        (Phase::Putting, Response::PutLogEvents(Ok(next))) => settled(view, next),
        (Phase::Putting, Response::PutLogEvents(Err(_))) => (
            UploaderView { phase: Phase::Probing, failed: true, ..view },
            Ask::Describe,
        ),
        _ => (view, Ask::Nothing),
    }
}

/// What a batch makes of the uploader, and the call that follows: the groups
/// of the batch join those that wait, and the first is sent at once where no
/// call is under way.
pub open spec fn accept(view: UploaderView, events: Seq<LogEvent>) -> (UploaderView, Ask) {
    let queued = UploaderView { queue: view.queue + grouping_of(events), ..view };
    if view.phase == Phase::Idle {
        settled(queued, view.token)
    } else {
        (queued, Ask::Nothing)
    }
}

/// `request` is the call that `ask` stands for, made by the uploader `view`.
pub open spec fn is_request(view: UploaderView, ask: Ask, request: Option<Request>) -> bool {
    match ask {
        Ask::Nothing => request is None,
        Ask::Describe => request == Some(describe_request(view.conf)),
        Ask::Create => request == Some(create_request(view.conf)),
        Ask::Put(events) => request matches Some(call) && is_put_request(
            call,
            view.conf,
            view.token,
            events,
        ),
    }
}

/// Where an uploader in this phase stands with its sequence token.
pub open spec fn status_of(phase: Phase, failed: bool) -> Status {
    match phase {
        Phase::Idle | Phase::Putting => Status::Ready,
        _ => if failed {
            Status::Failed
        } else {
            Status::Init
        },
    }
}

/// The uploader for one log stream.
pub struct CloudWatch {
    conf: Configuration,
    sequence_token: Option<String>,
    phase: Phase,
    failed: bool,
    queue: Vec<Vec<LogEvent>>,
}

impl View for CloudWatch {
    type V = UploaderView;

    closed spec fn view(&self) -> UploaderView {
        UploaderView {
            conf: self.conf,
            token: self.sequence_token,
            phase: self.phase,
            failed: self.failed,
            queue: group_views(self.queue@),
        }
    }
}

impl CloudWatch {
    /// Where the uploader stands with its sequence token.
    pub open spec fn spec_status(&self) -> Status {
        status_of(self@.phase, self@.failed)
    }

    /// An uploader for the stream of `conf`, and the call that starts the
    /// first refresh of its sequence token.
    pub fn new(conf: Configuration) -> (made: (CloudWatch, Request))
        ensures
            made.0@ == (UploaderView {
                conf,
                token: None,
                phase: Phase::Probing,
                failed: false,
                queue: Seq::empty(),
            }),
            made.0.spec_status() == Status::Init,
            made.1 == describe_request(conf),
    {
        let uploader = CloudWatch {
            conf,
            sequence_token: None,
            phase: Phase::Probing,
            failed: false,
            queue: Vec::new(),
        };
        assert(group_views(uploader.queue@) =~= Seq::empty());
        let request = uploader.describe();
        (uploader, request)
    }

    /// The DescribeLogStreams call for the stream.
    fn describe(&self) -> (request: Request)
        ensures
            request == describe_request(self@.conf),
    {
        Request::DescribeLogStreams {
            log_group_name: self.conf.log_group_name.clone(),
            log_stream_name_prefix: self.conf.log_stream_name.clone(),
            limit: DESCRIBE_LIMIT,
        }
    }

    /// The CreateLogStream call for the stream.
    fn create(&self) -> (request: Request)
        ensures
            request == create_request(self@.conf),
    {
        Request::CreateLogStream {
            log_group_name: self.conf.log_group_name.clone(),
            log_stream_name: self.conf.log_stream_name.clone(),
        }
    }

    /// Takes `token` as the sequence token and sends the next group that
    /// waits, if there is one.
    fn settle(&mut self, token: Option<String>) -> (request: Option<Request>)
        ensures
            final(self)@ == settled(old(self)@, token).0,
            is_request(final(self)@, settled(old(self)@, token).1, request),
    {
        self.sequence_token = token;
        if self.queue.len() > 0 {
            let ghost before = group_views(self.queue@);
            let log_events = self.queue.remove(0);
            assert(group_views(self.queue@) =~= before.drop_first());
            assert(log_events@ == before[0]);
            self.phase = Phase::Putting;
            Some(
                Request::PutLogEvents {
                    log_group_name: self.conf.log_group_name.clone(),
                    log_stream_name: self.conf.log_stream_name.clone(),
                    sequence_token: self.sequence_token.clone(),
                    log_events,
                },
            )
        } else {
            self.phase = Phase::Idle;
            None
        }
    }

    /// Takes a batch for upload: sorts and groups its events, and queues the
    /// groups behind those that wait. Hands out the call for the first group
    /// where no call is under way.
    pub fn upload(&mut self, events: Vec<LogEvent>) -> (request: Option<Request>)
        ensures
            final(self)@ == accept(old(self)@, events@).0,
            is_request(final(self)@, accept(old(self)@, events@).1, request),
    {
        let ghost before = group_views(self.queue@);
        let mut groups = do_group_events(events);
        let ghost added = group_views(groups@);
        self.queue.append(&mut groups);
        assert(group_views(self.queue@) =~= before + added);
        match self.phase {
            Phase::Idle => {
                let token = self.sequence_token.clone();
                self.settle(token)
            },
            _ => None,
        }
    }

    /// Takes the answer to the call that was handed out last, and hands out
    /// the call that follows, if any.
    pub fn handle(&mut self, response: Response) -> (request: Option<Request>)
        ensures
            final(self)@ == step(old(self)@, response).0,
            is_request(final(self)@, step(old(self)@, response).1, request),
    {
        match (self.phase, response) {
            (Phase::Probing, Response::DescribeLogStreams(answer)) => {
                match select_log_stream(answer, &self.conf.log_stream_name) {
                    Some(stream) => self.settle(stream.upload_sequence_token),
                    None => {
                        self.phase = Phase::Creating;
                        Some(self.create())
                    },
                }
            },
            (Phase::Creating, Response::CreateLogStream(_)) => {
                self.phase = Phase::Reprobing;
                Some(self.describe())
            },
            (Phase::Reprobing, Response::DescribeLogStreams(answer)) => {
                match select_log_stream(answer, &self.conf.log_stream_name) {
                    Some(stream) => self.settle(stream.upload_sequence_token),
                    None => self.settle(None),
                }
            },
            (Phase::Putting, Response::PutLogEvents(Ok(next))) => self.settle(next),
            (Phase::Putting, Response::PutLogEvents(Err(_))) => {
                self.phase = Phase::Probing;
                self.failed = true;
                Some(self.describe())
            },
            _ => None,
        }
    }

    /// Where the uploader stands with its sequence token.
    pub fn status(&self) -> (status: Status)
        ensures
            status == self.spec_status(),
    {
        match self.phase {
            Phase::Idle | Phase::Putting => Status::Ready,
            _ => if self.failed {
                Status::Failed
            } else {
                Status::Init
            },
        }
    }

    /// What the uploader waits for.
    pub fn phase(&self) -> (phase: Phase)
        ensures
            phase == self@.phase,
    {
        self.phase
    }

    /// The sequence token for the next PutLogEvents call, if one is known.
    pub fn sequence_token(&self) -> (token: &Option<String>)
        ensures
            *token == self@.token,
    {
        &self.sequence_token
    }

    /// Number of groups that wait for their call.
    pub fn queued(&self) -> (count: usize)
        ensures
            count == self@.queue.len(),
    {
        self.queue.len()
    }
}

} // verus!
