//! Chunked media upload: the arithmetic of the chunks and the decisions
//! between one response and the next request.
use vstd::prelude::*;
use vstd::string::*;
use twapi_reqwest::reqwest::Error;
use crate::text::{decimal, decimal_string, pair, pairs_view, text_eq};
use crate::{success_status, ResponseJson, TwapiError, TwapiResponse, UploadStage};

verus! {

/// The number of bytes in every chunk but the last.
pub const CHUNK_SIZE: u64 = 5_000_000;

/// Where every request of an upload goes.
pub const MEDIA_UPLOAD_URI: &'static str = "https://upload.twitter.com/1.1/media/upload.json";

/// The name of the part of a form that holds the bytes of a segment.
pub const MEDIA_PART: &'static str = "media";

/// The number of chunks of a file of `total` bytes: `total / CHUNK_SIZE`,
/// rounded up.
pub open spec fn chunk_count(total: int) -> int {
    (total + CHUNK_SIZE - 1) / (CHUNK_SIZE as int)
}

/// Where chunk `index` starts in the file.
pub open spec fn chunk_offset(index: int) -> int {
    index * CHUNK_SIZE
}

/// How many bytes chunk `index` of a file of `total` bytes holds: what is
/// left of the file at the chunk's offset, and no more than `CHUNK_SIZE`.
pub open spec fn chunk_length(total: int, index: int) -> int {
    if total - chunk_offset(index) >= CHUNK_SIZE {
        CHUNK_SIZE as int
    } else if total - chunk_offset(index) >= 0 {
        total - chunk_offset(index)
    } else {
        0
    }
}

/// The chunks are `ceil(total / CHUNK_SIZE)` many: as few as cover the
/// file.
pub proof fn lemma_chunk_count_is_ceiling(total: int)
    requires
        0 <= total,
    ensures
        0 <= chunk_count(total),
        chunk_count(total) * CHUNK_SIZE >= total,
        (chunk_count(total) - 1) * CHUNK_SIZE < total || total == 0,
        total == 0 ==> chunk_count(total) == 0,
{
    let c = CHUNK_SIZE as int;
    let n = chunk_count(total);
    assert(n * c <= total + c - 1 < n * c + c && (n - 1) * c == n * c - c) by (nonlinear_arith)
        requires
            n == (total + c - 1) / c,
            c == 5_000_000,
            0 <= total,
    ;
}

/// Counts the chunks of a file of `total` bytes.
pub fn count_chunks(total: u64) -> (count: u64)
    ensures
        count == chunk_count(total as int),
{
    let whole: u64 = total / CHUNK_SIZE;
    let count: u64 = if total % CHUNK_SIZE == 0 {
        whole
    } else {
        whole + 1
    };
    assert(count == chunk_count(total as int)) by (nonlinear_arith)
        requires
            count == total / 5_000_000 + if total % 5_000_000 == 0 {
                0int
            } else {
                1int
            },
    ;
    count
}

/// A request of the upload protocol.
#[derive(Debug)]
pub enum UploadRequest {
    /// Announce a medium of `total_bytes` bytes.
    Init { total_bytes: u64, media_type: String, media_category: String, additional_owners: Option<String> },
    /// Send the `length` bytes of the file that start at `offset` as
    /// segment `segment_index`.
    Append { media_id: String, segment_index: u64, offset: u64, length: u64 },
    /// Declare the medium complete.
    Finalize { media_id: String },
    /// Ask how far the processing of the medium has come.
    Status { media_id: String },
}

/// What happened to the request that is under way.
#[derive(Debug)]
pub enum UploadEvent {
    /// It was answered.
    Response(TwapiResponse),
    /// No response arrived.
    ConnectionFailed(Error),
    /// The bytes to send could not be read from the file.
    ReadFailed(std::io::Error),
}

/// What the caller does next.
#[derive(Debug)]
pub enum UploadAction {
    /// Make this request.
    Send(UploadRequest),
    /// Wait this many seconds, then make this request.
    SendAfter(u64, UploadRequest),
    /// The upload has ended with this result.
    Finish(Result<TwapiResponse, TwapiError>),
    /// The upload had ended before: there is nothing to do.
    Idle,
}

/// How far an upload has come. Up to `Processing`, one request is under
/// way in each state.
#[derive(Debug)]
pub enum UploadState {
    /// INIT is under way.
    Init,
    /// APPEND of segment `segment_index` is under way.
    Appending { media_id: String, segment_index: u64 },
    /// FINALIZE is under way.
    Finalizing { media_id: String },
    /// STATUS is under way.
    Processing { media_id: String },
    Succeeded,
    Failed,
}

/// One upload of one file.
#[derive(Debug)]
pub struct UploadSession {
    /// The size of the file.
    pub total_bytes: u64,
    /// How many more STATUS requests may be made; `None` for no limit.
    pub polls_left: Option<u64>,
    pub state: UploadState,
}

impl UploadSession {
    /// An `Appending` state names a segment that the file has.
    pub open spec fn wf(self) -> bool {
        match self.state {
            UploadState::Appending { media_id, segment_index } => segment_index < chunk_count(
                self.total_bytes as int,
            ),
            _ => true,
        }
    }

    /// The upload has ended.
    pub open spec fn ended(self) -> bool {
        self.state is Succeeded || self.state is Failed
    }

    /// The step to which the request under way belongs.
    pub open spec fn stage(self) -> UploadStage {
        match self.state {
            UploadState::Init => UploadStage::Init,
            UploadState::Appending { .. } => UploadStage::Append,
            UploadState::Finalizing { .. } => UploadStage::Finalize,
            _ => UploadStage::Status,
        }
    }

    /// This session in another state.
    pub open spec fn in_state(self, state: UploadState) -> UploadSession {
        UploadSession { total_bytes: self.total_bytes, polls_left: self.polls_left, state }
    }

    /// The upload ends in failure with `error`.
    pub open spec fn fails(self, error: TwapiError) -> (UploadSession, UploadAction) {
        (self.in_state(UploadState::Failed), UploadAction::Finish(Err(error)))
    }

    /// What follows once the service has accepted the first `done`
    /// segments: the next segment, or FINALIZE after the last.
    pub open spec fn after_segments(self, media_id: String, done: int) -> (
        UploadSession,
        UploadAction,
    ) {
        if done < chunk_count(self.total_bytes as int) {
            (
                self.in_state(UploadState::Appending { media_id, segment_index: done as u64 }),
                UploadAction::Send(
                    UploadRequest::Append {
                        media_id,
                        segment_index: done as u64,
                        offset: chunk_offset(done) as u64,
                        length: chunk_length(self.total_bytes as int, done) as u64,
                    },
                ),
            )
        } else {
            (
                self.in_state(UploadState::Finalizing { media_id }),
                UploadAction::Send(UploadRequest::Finalize { media_id }),
            )
        }
    }

    /// What follows where another STATUS request is due, after `wait`
    /// seconds if any: the request, unless the limit is used up.
    pub open spec fn polls(self, media_id: String, wait: Option<u64>) -> (
        UploadSession,
        UploadAction,
    ) {
        if self.polls_left == Some(0u64) {
            self.fails(TwapiError::Timeout)
        } else {
            let polls_left = match self.polls_left {
                Some(n) => Some((n - 1) as u64),
                None => None,
            };
            let request = UploadRequest::Status { media_id };
            (
                UploadSession {
                    total_bytes: self.total_bytes,
                    polls_left,
                    state: UploadState::Processing { media_id },
                },
                match wait {
                    Some(secs) => UploadAction::SendAfter(secs, request),
                    None => UploadAction::Send(request),
                },
            )
        }
    }

    /// What follows a STATUS response with a status in 200..300: the
    /// upload ends where the reported state is `succeeded` or `failed`;
    /// in every other state the next STATUS request is due after the
    /// seconds that the response names.
    pub open spec fn status_reported(self, media_id: String, response: TwapiResponse) -> (
        UploadSession,
        UploadAction,
    ) {
        match response.processing_info() {
            None => self.fails(TwapiError::NotExists),
            Some(info) => match info.state {
                None => self.fails(TwapiError::NotExists),
                Some(state) => if state@ == "succeeded"@ {
                    (self.in_state(UploadState::Succeeded), UploadAction::Finish(Ok(response)))
                } else if state@ == "failed"@ {
                    (self.in_state(UploadState::Failed), UploadAction::Finish(Ok(response)))
                } else {
                    match info.check_after_secs {
                        None => self.fails(TwapiError::NotExists),
                        Some(secs) => self.polls(media_id, Some(secs)),
                    }
                },
            },
        }
    }

    /// What follows a response with a status in 200..300.
    pub open spec fn after_success(self, response: TwapiResponse) -> (
        UploadSession,
        UploadAction,
    ) {
        match self.state {
            UploadState::Init => match response.media_id() {
                Some(media_id) => self.after_segments(media_id, 0),
                None => self.fails(TwapiError::NotExists),
            },
            UploadState::Appending { media_id, segment_index } => self.after_segments(
                media_id,
                segment_index + 1,
            ),
            UploadState::Finalizing { media_id } => match response.json {
                None => self.fails(TwapiError::NotExists),
                Some(json) => match json.processing_info {
                    None => (
                        self.in_state(UploadState::Succeeded),
                        UploadAction::Finish(Ok(response)),
                    ),
                    Some(_) => self.polls(media_id, None),
                },
            },
            UploadState::Processing { media_id } => self.status_reported(media_id, response),
            _ => (self, UploadAction::Idle),
        }
    }

    /// The state after `event` and what the caller does next.
    ///
    /// Once the upload has ended nothing changes and nothing is asked for.
    /// Before that, a failure to connect or to read, and a response with a
    /// status outside 200..300, end the upload in failure.
    pub open spec fn next(self, event: UploadEvent) -> (UploadSession, UploadAction) {
        if self.ended() {
            (self, UploadAction::Idle)
        } else {
            match event {
                UploadEvent::ConnectionFailed(err) => self.fails(TwapiError::Connection(err)),
                UploadEvent::ReadFailed(err) => self.fails(TwapiError::IO(err)),
                UploadEvent::Response(response) => if success_status(response.status_code) {
                    self.after_success(response)
                } else {
                    self.fails(
                        TwapiError::UploadStage(
                            self.stage(),
                            response.status_code,
                            response.body,
                        ),
                    )
                },
            }
        }
    }
}

impl UploadSession {
    /// Begins the upload of a file of `total_bytes` bytes: INIT is the
    /// first request. `poll_limit` bounds the STATUS requests that may
    /// follow FINALIZE; with `None` they go on until the service reports
    /// an end.
    pub fn start(
        total_bytes: u64,
        media_type: &str,
        media_category: &str,
        additional_owners: Option<String>,
        poll_limit: Option<u64>,
    ) -> (begun: (UploadSession, UploadRequest))
        ensures
            begun.0 == (UploadSession {
                total_bytes,
                polls_left: poll_limit,
                state: UploadState::Init,
            }),
            begun.0.wf(),
            begun.1 matches UploadRequest::Init {
                total_bytes: announced,
                media_type: kind,
                media_category: category,
                additional_owners: owners,
            } && announced == total_bytes && kind@ == media_type@ && category@ == media_category@
                && owners == additional_owners,
    {
        (
            UploadSession { total_bytes, polls_left: poll_limit, state: UploadState::Init },
            UploadRequest::Init {
                total_bytes,
                media_type: String::from_str(media_type),
                media_category: String::from_str(media_category),
                additional_owners,
            },
        )
    }

    fn fail(total_bytes: u64, polls_left: Option<u64>, error: TwapiError) -> (next: (
        UploadSession,
        UploadAction,
    ))
        ensures
            forall|state: UploadState|
                next == (#[trigger] UploadSession { total_bytes, polls_left, state }.fails(error)),
            next.0.wf(),
    {
        (
            UploadSession { total_bytes, polls_left, state: UploadState::Failed },
            UploadAction::Finish(Err(error)),
        )
    }

    fn segments_done(total_bytes: u64, polls_left: Option<u64>, media_id: String, done: u64) -> (next:
        (UploadSession, UploadAction))
        requires
            done <= chunk_count(total_bytes as int),
        ensures
            forall|state: UploadState|
                next == (#[trigger] UploadSession {
                    total_bytes,
                    polls_left,
                    state,
                }.after_segments(media_id, done as int)),
            next.0.wf(),
    {
        if done < count_chunks(total_bytes) {
            proof {
                lemma_chunk_count_is_ceiling(total_bytes as int);
                let n = chunk_count(total_bytes as int);
                assert(done * CHUNK_SIZE <= (n - 1) * CHUNK_SIZE) by (nonlinear_arith)
                    requires
                        done <= n - 1,
                ;
            }
            let offset: u64 = done * CHUNK_SIZE;
            let left: u64 = total_bytes - offset;
            let length: u64 = if left >= CHUNK_SIZE {
                CHUNK_SIZE
            } else {
                left
            };
            let request = UploadRequest::Append {
                media_id: media_id.clone(),
                segment_index: done,
                offset,
                length,
            };
            (
                UploadSession {
                    total_bytes,
                    polls_left,
                    state: UploadState::Appending { media_id, segment_index: done },
                },
                UploadAction::Send(request),
            )
        } else {
            let request = UploadRequest::Finalize { media_id: media_id.clone() };
            (
                UploadSession { total_bytes, polls_left, state: UploadState::Finalizing { media_id } },
                UploadAction::Send(request),
            )
        }
    }

    fn poll(total_bytes: u64, polls_left: Option<u64>, media_id: String, wait: Option<u64>) -> (next:
        (UploadSession, UploadAction))
        ensures
            forall|state: UploadState|
                next == (#[trigger] UploadSession { total_bytes, polls_left, state }.polls(
                    media_id,
                    wait,
                )),
            next.0.wf(),
    {
        let remaining = match polls_left {
            Some(n) => {
                if n == 0 {
                    return Self::fail(total_bytes, polls_left, TwapiError::Timeout);
                }
                Some(n - 1)
            },
            None => None,
        };
        let request = UploadRequest::Status { media_id: media_id.clone() };
        let action = match wait {
            Some(secs) => UploadAction::SendAfter(secs, request),
            None => UploadAction::Send(request),
        };
        (
            UploadSession {
                total_bytes,
                polls_left: remaining,
                state: UploadState::Processing { media_id },
            },
            action,
        )
    }

    fn status_answered(
        total_bytes: u64,
        polls_left: Option<u64>,
        media_id: String,
        response: TwapiResponse,
    ) -> (next: (UploadSession, UploadAction))
        ensures
            forall|state: UploadState|
                next == (#[trigger] UploadSession {
                    total_bytes,
                    polls_left,
                    state,
                }.status_reported(media_id, response)),
            next.0.wf(),
    {
        let (ended, wait): (Option<bool>, Option<u64>) = match &response.json {
            None => {
                return Self::fail(total_bytes, polls_left, TwapiError::NotExists);
            },
            Some(json) => match &json.processing_info {
                None => {
                    return Self::fail(total_bytes, polls_left, TwapiError::NotExists);
                },
                Some(info) => match &info.state {
                    None => {
                        return Self::fail(total_bytes, polls_left, TwapiError::NotExists);
                    },
                    Some(state) => if text_eq(state.as_str(), "succeeded") {
                        (Some(true), None)
                    } else if text_eq(state.as_str(), "failed") {
                        (Some(false), None)
                    } else {
                        (None, info.check_after_secs)
                    },
                },
            },
        };
        match ended {
            Some(true) => (
                UploadSession { total_bytes, polls_left, state: UploadState::Succeeded },
                UploadAction::Finish(Ok(response)),
            ),
            Some(false) => (
                UploadSession { total_bytes, polls_left, state: UploadState::Failed },
                UploadAction::Finish(Ok(response)),
            ),
            None => match wait {
                None => Self::fail(total_bytes, polls_left, TwapiError::NotExists),
                Some(secs) => Self::poll(total_bytes, polls_left, media_id, Some(secs)),
            },
        }
    }

    /// Whether the session is well formed.
    pub fn is_well_formed(&self) -> (yes: bool)
        ensures
            yes == self.wf(),
    {
        match &self.state {
            UploadState::Appending { media_id, segment_index } => *segment_index < count_chunks(
                self.total_bytes,
            ),
            _ => true,
        }
    }

    /// Takes `event`, the outcome of the request under way, and says what
    /// the caller does next.
    pub fn step(self, event: UploadEvent) -> (next: (UploadSession, UploadAction))
        requires
            self.wf(),
        ensures
            next == self.next(event),
            next.0.wf(),
    {
        let UploadSession { total_bytes, polls_left, state } = self;
        let stage = match &state {
            UploadState::Succeeded => {
                return (
                    UploadSession { total_bytes, polls_left, state: UploadState::Succeeded },
                    UploadAction::Idle,
                );
            },
            UploadState::Failed => {
                return (
                    UploadSession { total_bytes, polls_left, state: UploadState::Failed },
                    UploadAction::Idle,
                );
            },
            UploadState::Init => UploadStage::Init,
            UploadState::Appending { .. } => UploadStage::Append,
            UploadState::Finalizing { .. } => UploadStage::Finalize,
            UploadState::Processing { .. } => UploadStage::Status,
        };
        let response = match event {
            UploadEvent::ConnectionFailed(err) => {
                return Self::fail(total_bytes, polls_left, TwapiError::Connection(err));
            },
            UploadEvent::ReadFailed(err) => {
                return Self::fail(total_bytes, polls_left, TwapiError::IO(err));
            },
            UploadEvent::Response(response) => response,
        };
        if !response.is_success() {
            let TwapiResponse { status_code, body, json } = response;
            return Self::fail(
                total_bytes,
                polls_left,
                TwapiError::UploadStage(stage, status_code, body),
            );
        }
        match state {
            UploadState::Init => {
                let TwapiResponse { status_code, body, json } = response;
                match json {
                    Some(ResponseJson { media_id_string: Some(media_id), processing_info }) => {
                        Self::segments_done(total_bytes, polls_left, media_id, 0)
                    },
                    _ => Self::fail(total_bytes, polls_left, TwapiError::NotExists),
                }
            },
            UploadState::Appending { media_id, segment_index } => Self::segments_done(
                total_bytes,
                polls_left,
                media_id,
                segment_index + 1,
            ),
            UploadState::Finalizing { media_id } => {
                let processing: Option<bool> = match &response.json {
                    None => None,
                    Some(json) => Some(json.processing_info.is_some()),
                };
                match processing {
                    None => Self::fail(total_bytes, polls_left, TwapiError::NotExists),
                    Some(false) => (
                        UploadSession { total_bytes, polls_left, state: UploadState::Succeeded },
                        UploadAction::Finish(Ok(response)),
                    ),
                    Some(true) => Self::poll(total_bytes, polls_left, media_id, None),
                }
            },
            UploadState::Processing { media_id } => Self::status_answered(
                total_bytes,
                polls_left,
                media_id,
                response,
            ),
            UploadState::Succeeded => (
                UploadSession { total_bytes, polls_left, state: UploadState::Succeeded },
                UploadAction::Idle,
            ),
            UploadState::Failed => (
                UploadSession { total_bytes, polls_left, state: UploadState::Failed },
                UploadAction::Idle,
            ),
        }
    }
}

impl UploadRequest {
    /// The text fields of the request, in the order in which they are
    /// sent: the query of a STATUS request, the text parts of the form of
    /// every other. The bytes of a segment are not among them.
    pub open spec fn form(self) -> Seq<(Seq<char>, Seq<char>)> {
        match self {
            UploadRequest::Init { total_bytes, media_type, media_category, additional_owners } => {
                let fixed = seq![
                    ("command"@, "INIT"@),
                    ("total_bytes"@, decimal(total_bytes as nat)),
                    ("media_type"@, media_type@),
                    ("media_category"@, media_category@),
                ];
                match additional_owners {
                    Some(owners) => fixed.push(("additional_owners"@, owners@)),
                    None => fixed,
                }
            },
            UploadRequest::Append { media_id, segment_index, offset, length } => seq![
                ("command"@, "APPEND"@),
                ("media_id"@, media_id@),
                ("segment_index"@, decimal(segment_index as nat)),
            ],
            UploadRequest::Finalize { media_id } => seq![
                ("command"@, "FINALIZE"@),
                ("media_id"@, media_id@),
            ],
            UploadRequest::Status { media_id } => seq![
                ("command"@, "STATUS"@),
                ("media_id"@, media_id@),
            ],
        }
    }

    /// How the request is sent: STATUS by GET, with its fields as the
    /// query; every other by POST, with its fields as the text parts of a
    /// form.
    pub open spec fn is_query(self) -> bool {
        self is Status
    }

    /// The bytes of the file that the request sends in the part
    /// `MEDIA_PART` of its form, as offset and length: those of the
    /// segment for APPEND, none for every other request.
    pub open spec fn payload(self) -> Option<(u64, u64)> {
        match self {
            UploadRequest::Append { media_id, segment_index, offset, length } => Some(
                (offset, length),
            ),
            _ => None,
        }
    }

    /// Whether the request is sent by GET, with its fields as the query.
    pub fn sent_as_query(&self) -> (yes: bool)
        ensures
            yes == self.is_query(),
    {
        match self {
            UploadRequest::Status { .. } => true,
            _ => false,
        }
    }

    /// Where in the file the bytes lie that the request sends, and how
    /// many they are.
    pub fn chunk(&self) -> (range: Option<(u64, u64)>)
        ensures
            range == self.payload(),
    {
        match self {
            UploadRequest::Append { media_id, segment_index, offset, length } => Some(
                (*offset, *length),
            ),
            _ => None,
        }
    }

    /// Renders the text fields of the request.
    pub fn fields(&self) -> (fields: Vec<(String, String)>)
        ensures
            pairs_view(fields@) == self.form(),
    {
        let mut fields: Vec<(String, String)> = Vec::new();
        match self {
            UploadRequest::Init { total_bytes, media_type, media_category, additional_owners } => {
                fields.push(pair("command", "INIT"));
                fields.push((String::from_str("total_bytes"), decimal_string(*total_bytes)));
                fields.push(pair("media_type", media_type.as_str()));
                fields.push(pair("media_category", media_category.as_str()));
                match additional_owners {
                    Some(owners) => {
                        fields.push(pair("additional_owners", owners.as_str()));
                    },
                    None => {},
                }
            },
            UploadRequest::Append { media_id, segment_index, offset, length } => {
                fields.push(pair("command", "APPEND"));
                fields.push(pair("media_id", media_id.as_str()));
                fields.push((String::from_str("segment_index"), decimal_string(*segment_index)));
            },
            UploadRequest::Finalize { media_id } => {
                fields.push(pair("command", "FINALIZE"));
                fields.push(pair("media_id", media_id.as_str()));
            },
            UploadRequest::Status { media_id } => {
                fields.push(pair("command", "STATUS"));
                fields.push(pair("media_id", media_id.as_str()));
            },
        }
        assert(pairs_view(fields@) =~= self.form());
        fields
    }
}

/// The last chunk holds what the full chunks before it leave of the
/// file, and at least one byte.
pub proof fn lemma_last_chunk(total: int)
    requires
        0 < total,
    ensures
        chunk_length(total, chunk_count(total) - 1) == total - (chunk_count(total) - 1)
            * CHUNK_SIZE,
        1 <= chunk_length(total, chunk_count(total) - 1) <= CHUNK_SIZE,
{
    lemma_chunk_count_is_ceiling(total);
}

/// A file whose size is a multiple of `CHUNK_SIZE` has `total /
/// CHUNK_SIZE` chunks, each of them full: no empty chunk trails.
pub proof fn lemma_exact_multiple(total: int)
    requires
        0 <= total,
        total % (CHUNK_SIZE as int) == 0,
    ensures
        chunk_count(total) == total / (CHUNK_SIZE as int),
        forall|index: int|
            0 <= index < chunk_count(total) ==> #[trigger] chunk_length(total, index)
                == CHUNK_SIZE,
{
    let c = CHUNK_SIZE as int;
    let n = total / c;
    assert(total == n * c && (total + c - 1) / c == n) by (nonlinear_arith)
        requires
            n == total / c,
            total % c == 0,
            c == 5_000_000,
    ;
    assert forall|index: int| 0 <= index < chunk_count(total) implies #[trigger] chunk_length(
        total,
        index,
    ) == CHUNK_SIZE by {
        assert(index * c <= (n - 1) * c && (n - 1) * c == n * c - c) by (nonlinear_arith)
            requires
                index <= n - 1,
                c > 0,
        ;
    }
}

/// The chunks lie end to end and cover the file: every chunk but the last
/// is full and ends where the next begins, and the last ends where the
/// file ends.
pub proof fn lemma_chunks_cover(total: int, index: int)
    requires
        0 <= index < chunk_count(total),
    ensures
        1 <= chunk_length(total, index) <= CHUNK_SIZE,
        index < chunk_count(total) - 1 ==> chunk_length(total, index) == CHUNK_SIZE
            && chunk_offset(index) + chunk_length(total, index) == chunk_offset(index + 1),
        index == chunk_count(total) - 1 ==> chunk_offset(index) + chunk_length(total, index)
            == total,
{
    let c = CHUNK_SIZE as int;
    let n = chunk_count(total);
    assert(total > 0) by {
        if total <= 0 {
            assert((total + c - 1) / c <= 0) by (nonlinear_arith)
                requires
                    total <= 0,
                    c == 5_000_000,
            ;
        }
    }
    lemma_chunk_count_is_ceiling(total);
    assert((index + 1) * c == index * c + c) by (nonlinear_arith);
    if index < n - 1 {
        assert((index + 1) * c <= (n - 1) * c) by (nonlinear_arith)
            requires
                index + 1 <= n - 1,
                c > 0,
        ;
    } else {
        assert(index * c == (n - 1) * c);
    }
}

/// The session after a sequence of events.
pub open spec fn run(session: UploadSession, events: Seq<UploadEvent>) -> UploadSession
    decreases events.len(),
{
    if events.len() == 0 {
        session
    } else {
        run(session, events.drop_last()).next(events.last()).0
    }
}

/// What the caller is told after each of a sequence of events.
pub open spec fn actions(session: UploadSession, events: Seq<UploadEvent>) -> Seq<UploadAction> {
    Seq::new(events.len(), |i: int| run(session, events.take(i)).next(events[i]).1)
}

/// Whether `event` is a response with a status in 200..300.
pub open spec fn accepted(event: UploadEvent) -> bool {
    event matches UploadEvent::Response(response) && success_status(response.status_code)
}

/// Whether `event` is a response with a status outside 200..300.
pub open spec fn rejected(event: UploadEvent) -> bool {
    event matches UploadEvent::Response(response) && !success_status(response.status_code)
}

/// Where the service accepts INIT and every segment, the requests after
/// INIT are APPEND for the segments 0, 1, 2, and so on, one for each chunk
/// of the file and each with the chunk's offset and length, and then
/// FINALIZE: there are `chunk_count(total_bytes)` APPEND requests.
pub proof fn lemma_one_append_per_chunk(
    session: UploadSession,
    events: Seq<UploadEvent>,
    media_id: String,
)
    requires
        session.state is Init,
        events.len() == chunk_count(session.total_bytes as int) + 1,
        forall|i: int| 0 <= i < events.len() ==> accepted(#[trigger] events[i]),
        events[0]->Response_0.media_id() == Some(media_id),
    ensures
        forall|i: int|
            0 <= i < chunk_count(session.total_bytes as int) ==> #[trigger] actions(
                session,
                events,
            )[i] == UploadAction::Send(
                UploadRequest::Append {
                    media_id,
                    segment_index: i as u64,
                    offset: chunk_offset(i) as u64,
                    length: chunk_length(session.total_bytes as int, i) as u64,
                },
            ),
        actions(session, events)[chunk_count(session.total_bytes as int)] == UploadAction::Send(
            UploadRequest::Finalize { media_id },
        ),
{
    let n = chunk_count(session.total_bytes as int);
    lemma_chunk_count_is_ceiling(session.total_bytes as int);
    assert forall|i: int| 0 <= i <= n implies #[trigger] actions(session, events)[i]
        == session.after_segments(media_id, i).1 by {
        lemma_accepted_prefix(session, events, media_id, i);
    }
}

/// After INIT and the first `done` segments were accepted, the session is
/// where `after_segments` says.
proof fn lemma_accepted_prefix(
    session: UploadSession,
    events: Seq<UploadEvent>,
    media_id: String,
    done: int,
)
    requires
        session.state is Init,
        0 <= done < events.len(),
        done <= chunk_count(session.total_bytes as int),
        forall|i: int| 0 <= i < events.len() ==> accepted(#[trigger] events[i]),
        events[0]->Response_0.media_id() == Some(media_id),
    ensures
        run(session, events.take(done)).next(events[done]) == session.after_segments(
            media_id,
            done,
        ),
    decreases done,
{
    if done == 0 {
        assert(events.take(0).len() == 0);
    } else {
        lemma_accepted_prefix(session, events, media_id, done - 1);
        let before = events.take(done);
        assert(before.drop_last() =~= events.take(done - 1));
        assert(before.last() == events[done - 1]);
        assert(accepted(events[done - 1]));
        assert(accepted(events[done]));
    }
}

/// Once the upload has ended, no event changes the session and no event
/// leads to a request: every action is `Idle`.
pub proof fn lemma_nothing_after_the_end(session: UploadSession, events: Seq<UploadEvent>)
    requires
        session.ended(),
    ensures
        run(session, events) == session,
        forall|i: int| 0 <= i < events.len() ==> #[trigger] actions(session, events)[i]
            == UploadAction::Idle,
    decreases events.len(),
{
    if events.len() > 0 {
        lemma_nothing_after_the_end(session, events.drop_last());
        assert forall|i: int| 0 <= i < events.len() implies #[trigger] actions(session, events)[i]
            == UploadAction::Idle by {
            lemma_nothing_after_the_end(session, events.take(i));
        }
    }
}

/// A response with a status outside 200..300 ends the upload at once:
/// the caller gets the stage, the status and the body, and whatever
/// happens later, no further request is asked for. So a segment that the
/// service rejects is followed by no other segment and by no FINALIZE.
pub proof fn lemma_rejection_ends_the_upload(session: UploadSession, events: Seq<UploadEvent>)
    requires
        !session.ended(),
        events.len() > 0,
        rejected(events[0]),
    ensures
        actions(session, events)[0] == UploadAction::Finish(
            Err(
                TwapiError::UploadStage(
                    session.stage(),
                    events[0]->Response_0.status_code,
                    events[0]->Response_0.body,
                ),
            ),
        ),
        forall|i: int| 1 <= i < events.len() ==> #[trigger] actions(session, events)[i]
            == UploadAction::Idle,
        run(session, events).state is Failed,
{
    assert(events.take(0).len() == 0);
    let failed = session.next(events[0]).0;
    let later = events.skip(1);
    lemma_run_from_first(session, events);
    lemma_nothing_after_the_end(failed, later);
    assert forall|i: int| 1 <= i < events.len() implies #[trigger] actions(session, events)[i]
        == UploadAction::Idle by {
        lemma_run_from_first(session, events.take(i));
        assert(events.take(i).skip(1) =~= later.take(i - 1));
        assert(events.take(i)[0] == events[0]);
        lemma_nothing_after_the_end(failed, later.take(i - 1));
        assert(actions(failed, later)[i - 1] == UploadAction::Idle);
    }
}

/// Running a sequence of events is taking the first and running the rest.
proof fn lemma_run_from_first(session: UploadSession, events: Seq<UploadEvent>)
    requires
        events.len() > 0,
    ensures
        run(session, events) == run(session.next(events[0]).0, events.skip(1)),
    decreases events.len(),
{
    if events.len() == 1 {
        assert(events.drop_last().len() == 0);
        assert(events.skip(1).len() == 0);
    } else {
        lemma_run_from_first(session, events.drop_last());
        assert(events.drop_last().skip(1) =~= events.skip(1).drop_last());
        assert(events.drop_last()[0] == events[0]);
        assert(events.skip(1).last() == events.last());
    }
}

/// Whether `event` is a STATUS response with a status in 200..300 that
/// reports a state and the seconds to wait.
pub open spec fn reports(event: UploadEvent, state: Seq<char>, secs: u64) -> bool {
    &&& accepted(event)
    &&& event->Response_0.processing_info() matches Some(info)
    &&& info.state matches Some(text)
    &&& text@ == state
    &&& info.check_after_secs == Some(secs)
}

/// While the medium is processed, a STATUS response ends the upload
/// exactly when it reports the state `succeeded` or `failed`, and the
/// caller then gets that response. On every other state the next STATUS
/// request follows after the seconds that the response names, unless the
/// caller's limit on such requests is used up.
pub proof fn lemma_polling_ends_on_report(
    session: UploadSession,
    event: UploadEvent,
    state: Seq<char>,
    secs: u64,
)
    requires
        session.state is Processing,
        reports(event, state, secs),
    ensures
        (state == "succeeded"@ || state == "failed"@) ==> session.next(event).1
            == UploadAction::Finish(Ok(event->Response_0)) && session.next(event).0.ended(),
        state == "succeeded"@ <==> session.next(event).0.state is Succeeded,
        !(state == "succeeded"@ || state == "failed"@) && session.polls_left != Some(0u64)
            ==> session.next(event).0.state is Processing && session.next(event).1
            == UploadAction::SendAfter(
            secs,
            UploadRequest::Status { media_id: session.state->Processing_media_id },
        ),
        session.polls_left is None ==> (session.next(event).0.ended() <==> (state
            == "succeeded"@ || state == "failed"@)),
        session.next(event).0.ended() <==> (state == "succeeded"@ || state == "failed"@
            || session.polls_left == Some(0u64)),
{
    reveal_strlit("succeeded");
    reveal_strlit("failed");
    assert("succeeded"@ != "failed"@) by {
        assert("succeeded"@.len() == 9);
        assert("failed"@.len() == 6);
    }
}

/// Whether `event` is a STATUS response with a status in 200..300 that
/// reports a state other than `succeeded` and `failed`, and the seconds
/// to wait.
pub open spec fn reports_progress(event: UploadEvent) -> bool {
    exists|state: Seq<char>, secs: u64|
        #![trigger reports(event, state, secs)]
        reports(event, state, secs) && state != "succeeded"@ && state != "failed"@
}

/// Without a limit on STATUS requests, the upload stays in `Processing`
/// for as long as every response reports a state other than `succeeded`
/// and `failed`.
pub proof fn lemma_polling_goes_on(session: UploadSession, events: Seq<UploadEvent>)
    requires
        session.state is Processing,
        session.polls_left is None,
        forall|i: int| 0 <= i < events.len() ==> reports_progress(#[trigger] events[i]),
    ensures
        run(session, events).state is Processing,
        run(session, events).polls_left is None,
    decreases events.len(),
{
    if events.len() > 0 {
        lemma_polling_goes_on(session, events.drop_last());
        let last = events.last();
        assert(reports_progress(last));
        let (state, secs) = choose|state: Seq<char>, secs: u64|
            #![trigger reports(last, state, secs)]
            reports(last, state, secs) && state != "succeeded"@ && state != "failed"@;
        lemma_polling_ends_on_report(run(session, events.drop_last()), last, state, secs);
    }
}

/// Whether an action asks the caller for a request.
pub open spec fn asks(action: UploadAction) -> bool {
    action is Send || action is SendAfter
}

/// How many of `actions` ask the caller for a request.
pub open spec fn requests_asked(actions: Seq<UploadAction>) -> nat
    decreases actions.len(),
{
    if actions.len() == 0 {
        0
    } else if asks(actions.last()) {
        requests_asked(actions.drop_last()) + 1
    } else {
        requests_asked(actions.drop_last())
    }
}

/// The actions after a sequence of events are the action after the first
/// and the actions that the later events lead to from there.
proof fn lemma_actions_from_first(session: UploadSession, events: Seq<UploadEvent>)
    requires
        events.len() > 0,
    ensures
        actions(session, events) == seq![session.next(events[0]).1] + actions(
            session.next(events[0]).0,
            events.skip(1),
        ),
{
    let first = session.next(events[0]);
    let later = events.skip(1);
    assert forall|i: int| 0 <= i < events.len() implies actions(session, events)[i] == (seq![
        first.1,
    ] + actions(first.0, later))[i] by {
        if i == 0 {
            assert(events.take(0).len() == 0);
        } else {
            lemma_run_from_first(session, events.take(i));
            assert(events.take(i).skip(1) =~= later.take(i - 1));
            assert(events.take(i)[0] == events[0]);
        }
    }
    assert(actions(session, events) =~= seq![first.1] + actions(first.0, later));
}

/// Counting the requests asked for, the first action counts as the others
/// do.
proof fn lemma_requests_asked_from_first(first: UploadAction, later: Seq<UploadAction>)
    ensures
        requests_asked(seq![first] + later) == requests_asked(later) + if asks(first) {
            1nat
        } else {
            0nat
        },
    decreases later.len(),
{
    let all = seq![first] + later;
    if later.len() == 0 {
        assert(all.drop_last() =~= Seq::<UploadAction>::empty());
        assert(requests_asked(all.drop_last()) == 0);
    } else {
        lemma_requests_asked_from_first(first, later.drop_last());
        assert(all.drop_last() =~= seq![first] + later.drop_last());
        assert(all.last() == later.last());
    }
}

/// Once the upload has ended, no request is asked for.
proof fn lemma_no_request_after_the_end(session: UploadSession, events: Seq<UploadEvent>)
    requires
        session.ended(),
    ensures
        requests_asked(actions(session, events)) == 0,
    decreases events.len(),
{
    if events.len() > 0 {
        lemma_actions_from_first(session, events);
        lemma_requests_asked_from_first(
            session.next(events[0]).1,
            actions(session.next(events[0]).0, events.skip(1)),
        );
        lemma_no_request_after_the_end(session, events.skip(1));
    } else {
        assert(actions(session, events).len() == 0);
    }
}

/// The limit of the caller bounds the polling: while the medium is
/// processed, whatever the responses are, no more STATUS requests are
/// asked for than the session has left.
pub proof fn lemma_polling_is_bounded(session: UploadSession, events: Seq<UploadEvent>, left: u64)
    requires
        session.state is Processing,
        session.polls_left == Some(left),
    ensures
        requests_asked(actions(session, events)) <= left,
    decreases events.len(),
{
    if events.len() == 0 {
        assert(actions(session, events).len() == 0);
    } else {
        let first = session.next(events[0]);
        let later = events.skip(1);
        lemma_actions_from_first(session, events);
        lemma_requests_asked_from_first(first.1, actions(first.0, later));
        if first.0.ended() {
            lemma_no_request_after_the_end(first.0, later);
        } else {
            assert(left > 0);
            assert(first.0.state is Processing);
            lemma_polling_is_bounded(first.0, later, (left - 1) as u64);
        }
    }
}

} // verus!
