//! The cancellable streaming protocol: statuses, errors, the event records
//! that cross the callback bridge, and the per-plugin stream table that
//! drives every transition.

use vstd::prelude::*;
use crate::keyed::{distinct_keys, key_index, lemma_key_index, lemma_key_index_at,
    lemma_key_index_push};
use crate::strutil::{dec_digits, has_prefix, views_of};
use crate::bridge::{HostBridge, ShellTransport};
use crate::message::FrontendEvent;
use crate::metadata::clone_opt_string;

verus! {

/// Errors the streaming operations report to the plugin author.
/// StreamCancelled is kept apart from the other failures so that a producer
/// can stop gracefully when the user cancelled, instead of treating the
/// refusal as an error.
#[derive(Debug, Clone, Copy, PartialEq, Eq, Structural)]
pub enum StreamError {
    SendFailed,
    InvalidStreamId,
    StreamNotFound,
    StreamAlreadyEnded,
    InvalidState,
    StreamCancelled,
}

impl StreamError {
    /// A human-readable description of the failure.
    pub fn message(&self) -> (r: &'static str)
        ensures
            r@ == match self {
                StreamError::SendFailed => "Failed to send message to frontend"@,
                StreamError::InvalidStreamId => "Invalid stream ID"@,
                StreamError::StreamNotFound => "Stream not found"@,
                StreamError::StreamAlreadyEnded => "Stream already ended"@,
                StreamError::InvalidState => "Invalid stream state"@,
                StreamError::StreamCancelled => "Stream was cancelled"@,
            },
    {
        match self {
            StreamError::SendFailed => "Failed to send message to frontend",
            StreamError::InvalidStreamId => "Invalid stream ID",
            StreamError::StreamNotFound => "Stream not found",
            StreamError::StreamAlreadyEnded => "Stream already ended",
            StreamError::InvalidState => "Invalid stream state",
            StreamError::StreamCancelled => "Stream was cancelled",
        }
    }
}

/// The state of one stream. Completed, Error and Cancelled are terminal:
/// no operation may move a stream out of them.
#[derive(Debug, Clone, Copy, PartialEq, Eq, Structural)]
pub enum StreamStatus {
    Active,
    Paused,
    Finalizing,
    Completed,
    Error,
    Cancelled,
}

/// Whether no further transition is legal from s.
pub open spec fn is_terminal(s: StreamStatus) -> bool {
    s == StreamStatus::Completed || s == StreamStatus::Error || s == StreamStatus::Cancelled
}

/// One entry of a plugin's private stream table.
#[derive(Debug)]
pub struct StreamInfo {
    pub id: String,
    pub plugin_id: String,
    pub stream_type: String,
    pub status: StreamStatus,
    pub created_at: u64,
    pub metadata: Option<String>,
}

impl Clone for StreamInfo {
    fn clone(&self) -> (res: Self)
        ensures
            res == *self,
    {
        StreamInfo {
            id: self.id.clone(),
            plugin_id: self.plugin_id.clone(),
            stream_type: self.stream_type.clone(),
            status: self.status,
            created_at: self.created_at,
            metadata: clone_opt_string(&self.metadata),
        }
    }
}

/// Which protocol step an outgoing stream event announces.
#[derive(Debug, Clone, Copy, PartialEq, Eq, Structural)]
pub enum StreamEventKind {
    Start,
    Data,
    End,
    Pause,
    Resume,
    Cancel,
}

/// The payload of a stream-start event.
#[derive(Debug)]
pub struct StreamStartData {
    pub stream_id: String,
    pub stream_type: String,
    pub metadata: Option<String>,
}

/// The payload of one data chunk.
#[derive(Debug)]
pub struct StreamDataData {
    pub stream_id: String,
    pub chunk: String,
    pub is_final: bool,
}

/// The payload of a stream-end event.
#[derive(Debug)]
pub struct StreamEndData {
    pub stream_id: String,
    pub success: bool,
    pub error: Option<String>,
}

/// The payload of a pause, resume or cancel event.
#[derive(Debug)]
pub struct StreamControlData {
    pub stream_id: String,
}

/// The payload variants of a stream event.
#[derive(Debug)]
pub enum StreamMessageData {
    Start(StreamStartData),
    Data(StreamDataData),
    End(StreamEndData),
    Control(StreamControlData),
}

/// One complete stream event as sent towards the shell.
#[derive(Debug)]
pub struct StreamMessageWrapper {
    pub kind: StreamEventKind,
    pub plugin_id: String,
    pub instance_id: String,
    pub data: StreamMessageData,
    pub timestamp: u64,
}

/// The stream id named by a payload.
pub open spec fn spec_stream_id(d: &StreamMessageData) -> Seq<char> {
    match d {
        StreamMessageData::Start(s) => s.stream_id@,
        StreamMessageData::Data(s) => s.stream_id@,
        StreamMessageData::End(s) => s.stream_id@,
        StreamMessageData::Control(s) => s.stream_id@,
    }
}

/// The stream id named by a payload.
pub fn stream_id_of(d: &StreamMessageData) -> (r: &String)
    ensures
        r@ == spec_stream_id(d),
{
    match d {
        StreamMessageData::Start(s) => &s.stream_id,
        StreamMessageData::Data(s) => &s.stream_id,
        StreamMessageData::End(s) => &s.stream_id,
        StreamMessageData::Control(s) => &s.stream_id,
    }
}

/// The shadow-ledger status that an event announces, mirroring how the host
/// reads each event kind. A data event announces Finalizing when it carries
/// the final chunk; an end event announces Completed on success and Error
/// otherwise.
pub open spec fn spec_announced_status(w: &StreamMessageWrapper) -> StreamStatus {
    match w.kind {
        StreamEventKind::Start => StreamStatus::Active,
        StreamEventKind::Data => match &w.data {
            StreamMessageData::Data(d) => if d.is_final {
                StreamStatus::Finalizing
            } else {
                StreamStatus::Active
            },
            _ => StreamStatus::Active,
        },
        StreamEventKind::End => match &w.data {
            StreamMessageData::End(d) => if d.success {
                StreamStatus::Completed
            } else {
                StreamStatus::Error
            },
            _ => StreamStatus::Completed,
        },
        StreamEventKind::Pause => StreamStatus::Paused,
        StreamEventKind::Resume => StreamStatus::Active,
        StreamEventKind::Cancel => StreamStatus::Cancelled,
    }
}

/// The status an event announces, as executable code.
pub fn announced_status(w: &StreamMessageWrapper) -> (r: StreamStatus)
    ensures
        r == spec_announced_status(w),
{
    match w.kind {
        StreamEventKind::Start => StreamStatus::Active,
        StreamEventKind::Data => match &w.data {
            StreamMessageData::Data(d) => if d.is_final {
                StreamStatus::Finalizing
            } else {
                StreamStatus::Active
            },
            _ => StreamStatus::Active,
        },
        StreamEventKind::End => match &w.data {
            StreamMessageData::End(d) => if d.success {
                StreamStatus::Completed
            } else {
                StreamStatus::Error
            },
            _ => StreamStatus::Completed,
        },
        StreamEventKind::Pause => StreamStatus::Paused,
        StreamEventKind::Resume => StreamStatus::Active,
        StreamEventKind::Cancel => StreamStatus::Cancelled,
    }
}


/// The emission log grew by exactly one event, keeping everything before
/// it.
pub open spec fn handed_one(pre: Seq<FrontendEvent>, post: Seq<FrontendEvent>) -> bool {
    post.len() == pre.len() + 1 && post.drop_last() == pre
}

/// Whether e is a stream event of this kind, from this plugin instance,
/// about this stream.
pub open spec fn is_stream_event(
    e: FrontendEvent,
    kind: StreamEventKind,
    plugin_id: Seq<char>,
    instance_id: Seq<char>,
    stream_id: Seq<char>,
) -> bool {
    match e {
        FrontendEvent::Stream(w) => w.kind == kind && w.plugin_id@ == plugin_id
            && w.instance_id@ == instance_id && spec_stream_id(&w.data) == stream_id,
        _ => false,
    }
}

/// Whether e is a data event carrying exactly this chunk and final flag.
pub open spec fn is_data_event(
    e: FrontendEvent,
    plugin_id: Seq<char>,
    instance_id: Seq<char>,
    stream_id: Seq<char>,
    chunk: Seq<char>,
    is_final: bool,
) -> bool {
    &&& is_stream_event(e, StreamEventKind::Data, plugin_id, instance_id, stream_id)
    &&& match e {
        FrontendEvent::Stream(w) => match w.data {
            StreamMessageData::Data(d) => d.chunk@ == chunk && d.is_final == is_final,
            _ => false,
        },
        _ => false,
    }
}

/// Whether e is a start event announcing this stream type and metadata.
pub open spec fn is_start_event(
    e: FrontendEvent,
    plugin_id: Seq<char>,
    instance_id: Seq<char>,
    stream_id: Seq<char>,
    stream_type: Seq<char>,
    metadata: Option<Seq<char>>,
) -> bool {
    &&& is_stream_event(e, StreamEventKind::Start, plugin_id, instance_id, stream_id)
    &&& match e {
        FrontendEvent::Stream(w) => match w.data {
            StreamMessageData::Start(d) => d.stream_type@ == stream_type && (match (
                d.metadata,
                metadata,
            ) {
                (Some(a), Some(b)) => a@ == b,
                (None, None) => true,
                _ => false,
            }),
            _ => false,
        },
        _ => false,
    }
}

/// Whether e is an end event carrying this verdict and error text.
pub open spec fn is_end_event(
    e: FrontendEvent,
    plugin_id: Seq<char>,
    instance_id: Seq<char>,
    stream_id: Seq<char>,
    success: bool,
    error: Option<Seq<char>>,
) -> bool {
    &&& is_stream_event(e, StreamEventKind::End, plugin_id, instance_id, stream_id)
    &&& match e {
        FrontendEvent::Stream(w) => match w.data {
            StreamMessageData::End(d) => d.success == success && (match (d.error, error) {
                (Some(a), Some(b)) => a@ == b,
                (None, None) => true,
                _ => false,
            }),
            _ => false,
        },
        _ => false,
    }
}

/// The emission log grew by exactly the first p chunks of a batch, as data
/// events in batch order, the last chunk of the batch marked final.
pub open spec fn batch_emitted(
    pre: Seq<FrontendEvent>,
    post: Seq<FrontendEvent>,
    plugin_id: Seq<char>,
    instance_id: Seq<char>,
    stream_id: Seq<char>,
    chunks: Seq<String>,
    p: int,
) -> bool {
    &&& 0 <= p <= chunks.len()
    &&& post.len() == pre.len() + p
    &&& post.subrange(0, pre.len() as int) == pre
    &&& forall|q: int|
        0 <= q < p ==> is_data_event(
            post[pre.len() + q],
            plugin_id,
            instance_id,
            stream_id,
            chunks[q]@,
            q == chunks.len() - 1,
        )
}

/// The stream ids of a table, in table order.
pub open spec fn stream_ids(s: Seq<StreamInfo>) -> Seq<Seq<char>> {
    s.map_values(|e: StreamInfo| e.id@)
}

/// The table entry for one stream id, if any.
pub open spec fn find_stream(s: Seq<StreamInfo>, id: Seq<char>) -> Option<StreamInfo> {
    let i = key_index(stream_ids(s), id);
    if i >= 0 {
        Some(s[i])
    } else {
        None
    }
}

/// The recorded status for one stream id, if any.
pub open spec fn status_in(s: Seq<StreamInfo>, id: Seq<char>) -> Option<StreamStatus> {
    match find_stream(s, id) {
        Some(e) => Some(e.status),
        None => None,
    }
}

/// Replacing the entry at the position of its own id keeps keys distinct,
/// makes that id resolve to the new entry, and leaves every other lookup
/// unchanged.
pub proof fn lemma_stream_update(pre: Seq<StreamInfo>, i: int, e: StreamInfo)
    requires
        distinct_keys(stream_ids(pre)),
        0 <= i < pre.len(),
        e.id@ == pre[i].id@,
        key_index(stream_ids(pre), e.id@) == i,
    ensures
        distinct_keys(stream_ids(pre.update(i, e))),
        find_stream(pre.update(i, e), e.id@) == Some(e),
        forall|k: Seq<char>| k != e.id@ ==> find_stream(pre.update(i, e), k) == find_stream(
            pre,
            k,
        ),
{
    let post = pre.update(i, e);
    assert(stream_ids(post) =~= stream_ids(pre));
    lemma_key_index(stream_ids(pre), e.id@);
    assert forall|k: Seq<char>| k != e.id@ implies find_stream(post, k) == find_stream(
        pre,
        k,
    ) by {
        lemma_key_index(stream_ids(pre), k);
        let r = key_index(stream_ids(pre), k);
        if r >= 0 {
            assert(stream_ids(pre)[r] == k);
            assert(r != i);
        }
    }
}

/// Appending an entry whose id is absent keeps keys distinct, makes that id
/// resolve to the appended entry, and leaves every other lookup unchanged.
pub proof fn lemma_stream_push(pre: Seq<StreamInfo>, e: StreamInfo)
    requires
        distinct_keys(stream_ids(pre)),
        key_index(stream_ids(pre), e.id@) == -1,
    ensures
        distinct_keys(stream_ids(pre.push(e))),
        find_stream(pre.push(e), e.id@) == Some(e),
        forall|k: Seq<char>| k != e.id@ ==> find_stream(pre.push(e), k) == find_stream(pre, k),
{
    let post = pre.push(e);
    assert(stream_ids(post) =~= stream_ids(pre).push(e.id@));
    lemma_key_index(stream_ids(pre), e.id@);
    lemma_key_index_push(stream_ids(pre), e.id@, e.id@);
    assert forall|a: int, b: int|
        0 <= a < b < stream_ids(post).len() implies stream_ids(post)[a] != stream_ids(
        post,
    )[b] by {
        if b == pre.len() as int {
            assert(stream_ids(pre)[a] != e.id@);
        }
    }
    assert forall|k: Seq<char>| k != e.id@ implies find_stream(post, k) == find_stream(
        pre,
        k,
    ) by {
        lemma_key_index_push(stream_ids(pre), k, e.id@);
        lemma_key_index(stream_ids(pre), k);
    }
}

/// The ids of the entries that have not reached a terminal status, in table
/// order.
pub open spec fn live_ids(s: Seq<StreamInfo>) -> Seq<Seq<char>>
    decreases s.len(),
{
    if s.len() == 0 {
        Seq::<Seq<char>>::empty()
    } else {
        let rest = live_ids(s.drop_last());
        if !is_terminal(s.last().status) {
            rest.push(s.last().id@)
        } else {
            rest
        }
    }
}

/// One plugin's private stream bookkeeping: its identity and the table of
/// streams it has started, keyed by stream id.
#[derive(Debug)]
pub struct StreamManager {
    pub plugin_id: String,
    pub instance_id: String,
    pub entries: Vec<StreamInfo>,
}

impl StreamManager {
    /// The table contents.
    pub open spec fn table(&self) -> Seq<StreamInfo> {
        self.entries@
    }

    /// The table never holds two entries for one stream id.
    pub open spec fn wf(&self) -> bool {
        distinct_keys(stream_ids(self.table()))
    }

    /// Identity fields unchanged by an operation.
    pub open spec fn same_identity(&self, other: &StreamManager) -> bool {
        self.plugin_id == other.plugin_id && self.instance_id == other.instance_id
    }

    /// An empty table for one plugin instance.
    pub fn new(plugin_id: &str, instance_id: &str) -> (r: StreamManager)
        ensures
            r.wf(),
            r.table() =~= Seq::<StreamInfo>::empty(),
            r.plugin_id@ == plugin_id@,
            r.instance_id@ == instance_id@,
    {
        StreamManager {
            plugin_id: plugin_id.to_owned(),
            instance_id: instance_id.to_owned(),
            entries: Vec::new(),
        }
    }

    /// The table position of a stream id.
    fn find_pos(&self, stream_id: &str) -> (r: Option<usize>)
        ensures
            match r {
                Some(i) => key_index(stream_ids(self.table()), stream_id@) == i,
                None => key_index(stream_ids(self.table()), stream_id@) == -1,
            },
    {
        let n = self.entries.len();
        let mut i: usize = 0;
        while i < n
            invariant
                n == self.entries@.len(),
                i <= n,
                forall|j: int| 0 <= j < i ==> stream_ids(self.table())[j] != stream_id@,
            decreases n - i,
        {
            if crate::strutil::str_eq(self.entries[i].id.as_str(), stream_id) {
                proof {
                    lemma_key_index_at(stream_ids(self.table()), stream_id@, i as int);
                }
                return Some(i);
            }
            i += 1;
        }
        proof {
            lemma_key_index(stream_ids(self.table()), stream_id@);
            let r = key_index(stream_ids(self.table()), stream_id@);
            if r >= 0 {
                assert(stream_ids(self.table())[r] != stream_id@);
            }
        }
        None
    }

    /// The recorded status of one stream, if any.
    pub fn get_stream_status(&self, stream_id: &str) -> (r: Option<StreamStatus>)
        ensures
            r == status_in(self.table(), stream_id@),
    {
        match self.find_pos(stream_id) {
            Some(i) => {
                proof {
                    lemma_key_index(stream_ids(self.table()), stream_id@);
                }
                Some(self.entries[i].status)
            },
            None => None,
        }
    }

    /// The ids of the streams that have not reached a terminal status, in
    /// table order.
    pub fn list_active_streams(&self) -> (r: Vec<String>)
        ensures
            views_of(r@) == live_ids(self.table()),
    {
        let n = self.entries.len();
        let mut out: Vec<String> = Vec::new();
        let mut i: usize = 0;
        proof {
            assert(self.table().subrange(0, 0) =~= Seq::<StreamInfo>::empty());
            assert(views_of(out@) =~= live_ids(self.table().subrange(0, 0)));
        }
        while i < n
            invariant
                n == self.entries@.len(),
                i <= n,
                views_of(out@) == live_ids(self.table().subrange(0, i as int)),
            decreases n - i,
        {
            let ghost pref = self.table().subrange(0, i as int);
            let ghost pref1 = self.table().subrange(0, i + 1 as int);
            proof {
                assert(pref1.drop_last() =~= pref);
                assert(pref1.last() == self.table()[i as int]);
            }
            let live = match self.entries[i].status {
                StreamStatus::Active | StreamStatus::Paused | StreamStatus::Finalizing => true,
                _ => false,
            };
            if live {
                out.push(self.entries[i].id.clone());
                proof {
                    assert(views_of(out@) =~= live_ids(pref1));
                }
            } else {
                proof {
                    assert(views_of(out@) =~= live_ids(pref1));
                }
            }
            i += 1;
        }
        proof {
            assert(self.table().subrange(0, n as int) =~= self.table());
        }
        out
    }

    /// A fresh time-derived stream id.
    fn generate_stream_id() -> (r: String)
        ensures
            has_prefix(r@, "stream_"@),
    {
        let mut s: String = "stream_".to_owned();
        let digits = crate::strutil::u64_string(crate::sys::now_unix_nanos());
        s.append(digits.as_str());
        proof {
            assert(s@.subrange(0, "stream_"@.len() as int) =~= "stream_"@);
        }
        s
    }

    /// The longest id length in the table.
    fn max_id_len(&self) -> (m: usize)
        ensures
            forall|j: int| 0 <= j < self.table().len() ==> self.table()[j].id@.len() <= m,
    {
        let n = self.entries.len();
        let mut m: usize = 0;
        let mut i: usize = 0;
        while i < n
            invariant
                n == self.entries@.len(),
                i <= n,
                forall|j: int| 0 <= j < i ==> self.table()[j].id@.len() <= m,
            decreases n - i,
        {
            let l = self.entries[i].id.as_str().unicode_len();
            if l > m {
                m = l;
            }
            i += 1;
        }
        m
    }

    /// A time-derived stream id that no current table entry carries. On
    /// the rare clock collision the id is extended until it is longer than
    /// every recorded id, which no existing id can then equal; when even
    /// that is impossible nothing is returned.
    fn fresh_stream_id(&self) -> (r: Option<String>)
        ensures
            match r {
                Some(sid) => has_prefix(sid@, "stream_"@) && find_stream(self.table(), sid@)
                    is None,
                None => true,
            },
    {
        let sid = Self::generate_stream_id();
        match self.find_pos(sid.as_str()) {
            None => {
                proof {
                    lemma_key_index(stream_ids(self.table()), sid@);
                }
                return Some(sid);
            },
            Some(_) => {},
        }
        let m = self.max_id_len();
        if m == usize::MAX {
            return None;
        }
        proof {
            lemma_key_index(stream_ids(self.table()), sid@);
        }
        let mut sid = sid;
        let mut l = sid.as_str().unicode_len();
        while l <= m
            invariant
                m < usize::MAX,
                l == sid@.len(),
                has_prefix(sid@, "stream_"@),
                l <= m + 1,
            decreases m + 1 - l,
        {
            proof {
                reveal_strlit("x");
                assert("x"@.len() == 1);
            }
            sid.append("x");
            proof {
                assert(sid@.subrange(0, "stream_"@.len() as int) =~= "stream_"@);
            }
            l = l + 1;
        }
        proof {
            lemma_key_index(stream_ids(self.table()), sid@);
            let p = key_index(stream_ids(self.table()), sid@);
            if p >= 0 {
                assert(self.table()[p].id@.len() <= m);
                assert(stream_ids(self.table())[p] == sid@);
            }
        }
        Some(sid)
    }

    /// Begin a stream: announce it through the bridge and, if the
    /// announcement was delivered, record it under a fresh id — one no
    /// current entry carries — as Active. Exactly one start event is
    /// handed to the transport unless the fresh id is still held as
    /// Cancelled in the shadow ledger; a refused or failed delivery
    /// records nothing and yields SendFailed.
    pub fn send_message_stream_start<T: ShellTransport>(
        &mut self,
        stream_type: &str,
        metadata: Option<&str>,
        bridge: &mut HostBridge<T>,
    ) -> (r: Result<String, StreamError>)
        requires
            old(self).wf(),
            old(bridge).wf(),
        ensures
            final(self).wf(),
            final(bridge).wf(),
            final(self).same_identity(old(self)),
            match r {
                Ok(sid) => {
                    &&& has_prefix(sid@, "stream_"@)
                    &&& find_stream(old(self).table(), sid@) is None
                    &&& final(self).table().len() == old(self).table().len() + 1
                    &&& match find_stream(final(self).table(), sid@) {
                        Some(e) => {
                            &&& e.status == StreamStatus::Active
                            &&& e.plugin_id@ == old(self).plugin_id@
                            &&& e.stream_type@ == stream_type@
                            &&& match (e.metadata, metadata) {
                                (Some(m), Some(p)) => m@ == p@,
                                (None, None) => true,
                                _ => false,
                            }
                        },
                        None => false,
                    }
                    &&& forall|k: Seq<char>|
                        k != sid@ ==> find_stream(final(self).table(), k) == find_stream(
                            old(self).table(),
                            k,
                        )
                    &&& final(bridge).shadow_status(sid@) == Some(StreamStatus::Active)
                    &&& handed_one(old(bridge).emitted@, final(bridge).emitted@)
                    &&& is_start_event(
                        final(bridge).emitted@.last(),
                        old(self).plugin_id@,
                        old(self).instance_id@,
                        sid@,
                        stream_type@,
                        match metadata {
                            Some(m) => Some(m@),
                            None => None,
                        },
                    )
                },
                Err(e) => {
                    &&& (e == StreamError::SendFailed || e == StreamError::InvalidStreamId)
                    &&& (e == StreamError::InvalidStreamId ==> *final(self) == *old(self)
                        && *final(bridge) == *old(bridge))
                    &&& final(self).table() == old(self).table()
                    &&& (final(bridge).emitted@ == old(bridge).emitted@ || (handed_one(
                        old(bridge).emitted@,
                        final(bridge).emitted@,
                    ) && match final(bridge).emitted@.last() {
                        FrontendEvent::Stream(w) => w.kind == StreamEventKind::Start
                            && w.plugin_id@ == old(self).plugin_id@ && w.instance_id@ == old(
                            self,
                        ).instance_id@,
                        _ => false,
                    }))
                },
            },
    {
        let sid = match self.fresh_stream_id() {
            Some(sid) => sid,
            None => {
                return Err(StreamError::InvalidStreamId);
            },
        };
        let w = StreamMessageWrapper {
            kind: StreamEventKind::Start,
            plugin_id: self.plugin_id.clone(),
            instance_id: self.instance_id.clone(),
            data: StreamMessageData::Start(
                StreamStartData {
                    stream_id: sid.clone(),
                    stream_type: stream_type.to_owned(),
                    metadata: match metadata {
                        Some(m) => Some(m.to_owned()),
                        None => None,
                    },
                },
            ),
            timestamp: crate::sys::now_unix_nanos() / 1000000,
        };
        let ghost gw = w;
        let sent = bridge.send_to_frontend(FrontendEvent::Stream(w));
        proof {
            if sent {
                crate::bridge::lemma_shadow_step(
                    old(bridge).shadow(),
                    bridge.shadow(),
                    sid@,
                    gw.plugin_id@,
                    gw.instance_id@,
                    StreamStatus::Active,
                );
                assert(bridge.emitted@.drop_last() =~= old(bridge).emitted@);
            } else {
                if old(bridge).shadow_status(sid@) != Some(StreamStatus::Cancelled) {
                    assert(bridge.emitted@.drop_last() =~= old(bridge).emitted@);
                }
            }
        }
        if sent {
            let entry = StreamInfo {
                id: sid.clone(),
                plugin_id: self.plugin_id.clone(),
                stream_type: stream_type.to_owned(),
                status: StreamStatus::Active,
                created_at: crate::sys::now_unix_nanos() / 1000000000,
                metadata: match metadata {
                    Some(m) => Some(m.to_owned()),
                    None => None,
                },
            };
            proof {
                lemma_key_index(stream_ids(self.table()), sid@);
                lemma_stream_push(self.table(), entry);
            }
            self.entries.push(entry);
            Ok(sid)
        } else {
            Err(StreamError::SendFailed)
        }
    }

    /// Send one chunk on a stream. Allowed while the stream is Active or
    /// Finalizing; a delivered final chunk moves the stream to Finalizing,
    /// not Completed. A delivery the bridge refused because the host
    /// cancelled the stream is reported as StreamCancelled and the table
    /// records the cancellation; any other failed delivery leaves the entry
    /// as it was and is reported as SendFailed.
    pub fn send_message_stream<T: ShellTransport>(
        &mut self,
        stream_id: &str,
        chunk: &str,
        is_final: bool,
        bridge: &mut HostBridge<T>,
    ) -> (r: Result<(), StreamError>)
        requires
            old(self).wf(),
            old(bridge).wf(),
        ensures
            final(self).wf(),
            final(bridge).wf(),
            final(self).same_identity(old(self)),
            forall|k: Seq<char>|
                k != stream_id@ ==> find_stream(final(self).table(), k) == find_stream(
                    old(self).table(),
                    k,
                ),
            match find_stream(old(self).table(), stream_id@) {
                None => r == Err::<(), StreamError>(StreamError::StreamNotFound) && final(self).table() == old(self).table() && *final(bridge) == *old(bridge),
                Some(e0) => {
                    if e0.status == StreamStatus::Paused {
                        r == Err::<(), StreamError>(StreamError::InvalidState) && final(self).table() == old(self).table() && *final(bridge) == *old(bridge)
                    } else if is_terminal(e0.status) {
                        r == Err::<(), StreamError>(StreamError::StreamAlreadyEnded) && final(self).table() == old(self).table() && *final(bridge) == *old(bridge)
                    } else {
                        &&& (old(bridge).shadow_status(stream_id@) == Some(
                            StreamStatus::Cancelled,
                        ) ==> r == Err::<(), StreamError>(StreamError::StreamCancelled)
                            && *final(bridge) == *old(bridge))
                        &&& ((r is Ok || r == Err::<(), StreamError>(StreamError::SendFailed))
                            ==> handed_one(old(bridge).emitted@, final(bridge).emitted@)
                            && is_data_event(
                            final(bridge).emitted@.last(),
                            old(self).plugin_id@,
                            old(self).instance_id@,
                            stream_id@,
                            chunk@,
                            is_final,
                        ))
                        &&& (r == Err::<(), StreamError>(StreamError::StreamCancelled) ==> final(bridge).emitted@ == old(bridge).emitted@)
                        &&& match r {
                            Ok(()) => {
                                &&& is_final ==> find_stream(final(self).table(), stream_id@)
                                    == Some(
                                    StreamInfo { status: StreamStatus::Finalizing, ..e0 },
                                )
                                &&& !is_final ==> find_stream(final(self).table(), stream_id@)
                                    == Some(e0)
                                &&& old(bridge).shadow_status(stream_id@) != Some(
                                    StreamStatus::Cancelled,
                                )
                            },
                            Err(StreamError::StreamCancelled) => {
                                &&& find_stream(final(self).table(), stream_id@) == Some(
                                    StreamInfo { status: StreamStatus::Cancelled, ..e0 },
                                )
                                &&& final(bridge).shadow_status(stream_id@) == Some(
                                    StreamStatus::Cancelled,
                                )
                            },
                            Err(StreamError::SendFailed) => find_stream(
                                final(self).table(),
                                stream_id@,
                            ) == Some(e0),
                            _ => false,
                        }
                    }
                },
            },
    {
        let pos = self.find_pos(stream_id);
        let i = match pos {
            Some(i) => i,
            None => {
                return Err(StreamError::StreamNotFound);
            },
        };
        proof {
            lemma_key_index(stream_ids(self.table()), stream_id@);
        }
        match self.entries[i].status {
            StreamStatus::Paused => {
                return Err(StreamError::InvalidState);
            },
            StreamStatus::Completed | StreamStatus::Error | StreamStatus::Cancelled => {
                return Err(StreamError::StreamAlreadyEnded);
            },
            StreamStatus::Active | StreamStatus::Finalizing => {},
        }
        let w = StreamMessageWrapper {
            kind: StreamEventKind::Data,
            plugin_id: self.plugin_id.clone(),
            instance_id: self.instance_id.clone(),
            data: StreamMessageData::Data(
                StreamDataData {
                    stream_id: stream_id.to_owned(),
                    chunk: chunk.to_owned(),
                    is_final,
                },
            ),
            timestamp: crate::sys::now_unix_nanos() / 1000000,
        };
        let ghost gw = w;
        let ghost e0 = find_stream(old(self).table(), stream_id@)->Some_0;
        let sent = bridge.send_to_frontend(FrontendEvent::Stream(w));
        proof {
            if old(bridge).shadow_status(stream_id@) != Some(StreamStatus::Cancelled) {
                crate::bridge::lemma_shadow_step(
                    old(bridge).shadow(),
                    bridge.shadow(),
                    stream_id@,
                    gw.plugin_id@,
                    gw.instance_id@,
                    spec_announced_status(&gw),
                );
                assert(bridge.emitted@.drop_last() =~= old(bridge).emitted@);
                assert(is_data_event(
                    bridge.emitted@.last(),
                    old(self).plugin_id@,
                    old(self).instance_id@,
                    stream_id@,
                    chunk@,
                    is_final,
                ));
            }
        }
        if sent {
            if is_final {
                proof {
                    lemma_stream_update(
                        self.table(),
                        i as int,
                        StreamInfo { status: StreamStatus::Finalizing, ..e0 },
                    );
                }
                let slot = &mut self.entries[i];
                slot.status = StreamStatus::Finalizing;
            }
            Ok(())
        } else {
            if bridge.is_stream_cancelled(stream_id) {
                proof {
                    lemma_stream_update(
                        self.table(),
                        i as int,
                        StreamInfo { status: StreamStatus::Cancelled, ..e0 },
                    );
                }
                let slot = &mut self.entries[i];
                slot.status = StreamStatus::Cancelled;
                Err(StreamError::StreamCancelled)
            } else {
                Err(StreamError::SendFailed)
            }
        }
    }

    /// End a stream. Allowed while the stream is not terminal; a delivered
    /// end moves it to Completed on success and to Error otherwise — only a
    /// successful end may yield Completed. Refusals are reported as for
    /// send_message_stream.
    pub fn send_message_stream_end<T: ShellTransport>(
        &mut self,
        stream_id: &str,
        success: bool,
        error_msg: Option<&str>,
        bridge: &mut HostBridge<T>,
    ) -> (r: Result<(), StreamError>)
        requires
            old(self).wf(),
            old(bridge).wf(),
        ensures
            final(self).wf(),
            final(bridge).wf(),
            final(self).same_identity(old(self)),
            forall|k: Seq<char>|
                k != stream_id@ ==> find_stream(final(self).table(), k) == find_stream(
                    old(self).table(),
                    k,
                ),
            match find_stream(old(self).table(), stream_id@) {
                None => r == Err::<(), StreamError>(StreamError::StreamNotFound) && final(self).table()
                    == old(self).table() && *final(bridge) == *old(bridge),
                Some(e0) => {
                    if is_terminal(e0.status) {
                        r == Err::<(), StreamError>(StreamError::StreamAlreadyEnded) && final(self).table()
                            == old(self).table() && *final(bridge) == *old(bridge)
                    } else {
                        &&& (old(bridge).shadow_status(stream_id@) == Some(
                            StreamStatus::Cancelled,
                        ) ==> r == Err::<(), StreamError>(StreamError::StreamCancelled)
                            && *final(bridge) == *old(bridge))
                        &&& ((r is Ok || r == Err::<(), StreamError>(StreamError::SendFailed))
                            ==> handed_one(old(bridge).emitted@, final(bridge).emitted@)
                            && is_end_event(
                            final(bridge).emitted@.last(),
                            old(self).plugin_id@,
                            old(self).instance_id@,
                            stream_id@,
                            success,
                            match error_msg {
                                Some(m) => Some(m@),
                                None => None,
                            },
                        ))
                        &&& (r == Err::<(), StreamError>(StreamError::StreamCancelled) ==> final(bridge).emitted@ == old(bridge).emitted@)
                        &&& match r {
                            Ok(()) => find_stream(final(self).table(), stream_id@) == Some(
                                StreamInfo {
                                    status: if success {
                                        StreamStatus::Completed
                                    } else {
                                        StreamStatus::Error
                                    },
                                    ..e0
                                },
                            ),
                            Err(StreamError::StreamCancelled) => {
                                &&& find_stream(final(self).table(), stream_id@) == Some(
                                    StreamInfo { status: StreamStatus::Cancelled, ..e0 },
                                )
                                &&& final(bridge).shadow_status(stream_id@) == Some(
                                    StreamStatus::Cancelled,
                                )
                            },
                            Err(StreamError::SendFailed) => find_stream(
                                final(self).table(),
                                stream_id@,
                            ) == Some(e0),
                            _ => false,
                        }
                    }
                },
            },
    {
        let pos = self.find_pos(stream_id);
        let i = match pos {
            Some(i) => i,
            None => {
                return Err(StreamError::StreamNotFound);
            },
        };
        proof {
            lemma_key_index(stream_ids(self.table()), stream_id@);
        }
        match self.entries[i].status {
            StreamStatus::Completed | StreamStatus::Error | StreamStatus::Cancelled => {
                return Err(StreamError::StreamAlreadyEnded);
            },
            _ => {},
        }
        let w = StreamMessageWrapper {
            kind: StreamEventKind::End,
            plugin_id: self.plugin_id.clone(),
            instance_id: self.instance_id.clone(),
            data: StreamMessageData::End(
                StreamEndData {
                    stream_id: stream_id.to_owned(),
                    success,
                    error: match error_msg {
                        Some(m) => Some(m.to_owned()),
                        None => None,
                    },
                },
            ),
            timestamp: crate::sys::now_unix_nanos() / 1000000,
        };
        let ghost gw = w;
        let ghost e0 = find_stream(old(self).table(), stream_id@)->Some_0;
        let sent = bridge.send_to_frontend(FrontendEvent::Stream(w));
        proof {
            if old(bridge).shadow_status(stream_id@) != Some(StreamStatus::Cancelled) {
                crate::bridge::lemma_shadow_step(
                    old(bridge).shadow(),
                    bridge.shadow(),
                    stream_id@,
                    gw.plugin_id@,
                    gw.instance_id@,
                    spec_announced_status(&gw),
                );
                assert(bridge.emitted@.drop_last() =~= old(bridge).emitted@);
                assert(is_end_event(
                    bridge.emitted@.last(),
                    old(self).plugin_id@,
                    old(self).instance_id@,
                    stream_id@,
                    success,
                    match error_msg {
                        Some(m) => Some(m@),
                        None => None,
                    },
                ));
            }
        }
        if sent {
            let new_status = if success {
                StreamStatus::Completed
            } else {
                StreamStatus::Error
            };
            proof {
                lemma_stream_update(
                    self.table(),
                    i as int,
                    StreamInfo { status: new_status, ..e0 },
                );
            }
            let slot = &mut self.entries[i];
            slot.status = new_status;
            Ok(())
        } else {
            if bridge.is_stream_cancelled(stream_id) {
                proof {
                    lemma_stream_update(
                        self.table(),
                        i as int,
                        StreamInfo { status: StreamStatus::Cancelled, ..e0 },
                    );
                }
                let slot = &mut self.entries[i];
                slot.status = StreamStatus::Cancelled;
                Err(StreamError::StreamCancelled)
            } else {
                Err(StreamError::SendFailed)
            }
        }
    }

    /// Pause an Active stream. The transition commits only if the pause
    /// event was delivered; on an ordinary failed delivery the entry stays
    /// Active.
    pub fn send_message_stream_pause<T: ShellTransport>(
        &mut self,
        stream_id: &str,
        bridge: &mut HostBridge<T>,
    ) -> (r: Result<(), StreamError>)
        requires
            old(self).wf(),
            old(bridge).wf(),
        ensures
            final(self).wf(),
            final(bridge).wf(),
            final(self).same_identity(old(self)),
            forall|k: Seq<char>|
                k != stream_id@ ==> find_stream(final(self).table(), k) == find_stream(
                    old(self).table(),
                    k,
                ),
            match find_stream(old(self).table(), stream_id@) {
                None => r == Err::<(), StreamError>(StreamError::StreamNotFound) && final(self).table()
                    == old(self).table() && *final(bridge) == *old(bridge),
                Some(e0) => {
                    if e0.status != StreamStatus::Active {
                        r == Err::<(), StreamError>(StreamError::InvalidState) && final(self).table()
                            == old(self).table() && *final(bridge) == *old(bridge)
                    } else {
                        &&& (old(bridge).shadow_status(stream_id@) == Some(
                            StreamStatus::Cancelled,
                        ) ==> r == Err::<(), StreamError>(StreamError::StreamCancelled)
                            && *final(bridge) == *old(bridge))
                        &&& ((r is Ok || r == Err::<(), StreamError>(StreamError::SendFailed))
                            ==> handed_one(old(bridge).emitted@, final(bridge).emitted@)
                            && is_stream_event(
                            final(bridge).emitted@.last(),
                            StreamEventKind::Pause,
                            old(self).plugin_id@,
                            old(self).instance_id@,
                            stream_id@,
                        ))
                        &&& (r == Err::<(), StreamError>(StreamError::StreamCancelled) ==> final(bridge).emitted@ == old(bridge).emitted@)
                        &&& match r {
                            Ok(()) => find_stream(final(self).table(), stream_id@) == Some(
                                StreamInfo { status: StreamStatus::Paused, ..e0 },
                            ),
                            Err(StreamError::StreamCancelled) => {
                                &&& find_stream(final(self).table(), stream_id@) == Some(
                                    StreamInfo { status: StreamStatus::Cancelled, ..e0 },
                                )
                                &&& final(bridge).shadow_status(stream_id@) == Some(
                                    StreamStatus::Cancelled,
                                )
                            },
                            Err(StreamError::SendFailed) => find_stream(
                                final(self).table(),
                                stream_id@,
                            ) == Some(e0),
                            _ => false,
                        }
                    }
                },
            },
    {
        let pos = self.find_pos(stream_id);
        let i = match pos {
            Some(i) => i,
            None => {
                return Err(StreamError::StreamNotFound);
            },
        };
        proof {
            lemma_key_index(stream_ids(self.table()), stream_id@);
        }
        match self.entries[i].status {
            StreamStatus::Active => {},
            _ => {
                return Err(StreamError::InvalidState);
            },
        }
        let w = StreamMessageWrapper {
            kind: StreamEventKind::Pause,
            plugin_id: self.plugin_id.clone(),
            instance_id: self.instance_id.clone(),
            data: StreamMessageData::Control(
                StreamControlData { stream_id: stream_id.to_owned() },
            ),
            timestamp: crate::sys::now_unix_nanos() / 1000000,
        };
        let ghost gw = w;
        let ghost e0 = find_stream(old(self).table(), stream_id@)->Some_0;
        let sent = bridge.send_to_frontend(FrontendEvent::Stream(w));
        proof {
            if old(bridge).shadow_status(stream_id@) != Some(StreamStatus::Cancelled) {
                crate::bridge::lemma_shadow_step(
                    old(bridge).shadow(),
                    bridge.shadow(),
                    stream_id@,
                    gw.plugin_id@,
                    gw.instance_id@,
                    spec_announced_status(&gw),
                );
                assert(bridge.emitted@.drop_last() =~= old(bridge).emitted@);
                assert(is_stream_event(
                    bridge.emitted@.last(),
                    StreamEventKind::Pause,
                    old(self).plugin_id@,
                    old(self).instance_id@,
                    stream_id@,
                ));
            }
        }
        if sent {
            proof {
                lemma_stream_update(
                    self.table(),
                    i as int,
                    StreamInfo { status: StreamStatus::Paused, ..e0 },
                );
            }
            let slot = &mut self.entries[i];
            slot.status = StreamStatus::Paused;
            Ok(())
        } else {
            if bridge.is_stream_cancelled(stream_id) {
                proof {
                    lemma_stream_update(
                        self.table(),
                        i as int,
                        StreamInfo { status: StreamStatus::Cancelled, ..e0 },
                    );
                }
                let slot = &mut self.entries[i];
                slot.status = StreamStatus::Cancelled;
                Err(StreamError::StreamCancelled)
            } else {
                Err(StreamError::SendFailed)
            }
        }
    }

    /// Resume a Paused stream. The transition commits only if the resume
    /// event was delivered; on an ordinary failed delivery the entry stays
    /// Paused.
    pub fn send_message_stream_resume<T: ShellTransport>(
        &mut self,
        stream_id: &str,
        bridge: &mut HostBridge<T>,
    ) -> (r: Result<(), StreamError>)
        requires
            old(self).wf(),
            old(bridge).wf(),
        ensures
            final(self).wf(),
            final(bridge).wf(),
            final(self).same_identity(old(self)),
            forall|k: Seq<char>|
                k != stream_id@ ==> find_stream(final(self).table(), k) == find_stream(
                    old(self).table(),
                    k,
                ),
            match find_stream(old(self).table(), stream_id@) {
                None => r == Err::<(), StreamError>(StreamError::StreamNotFound) && final(self).table()
                    == old(self).table() && *final(bridge) == *old(bridge),
                Some(e0) => {
                    if e0.status != StreamStatus::Paused {
                        r == Err::<(), StreamError>(StreamError::InvalidState) && final(self).table()
                            == old(self).table() && *final(bridge) == *old(bridge)
                    } else {
                        &&& (old(bridge).shadow_status(stream_id@) == Some(
                            StreamStatus::Cancelled,
                        ) ==> r == Err::<(), StreamError>(StreamError::StreamCancelled)
                            && *final(bridge) == *old(bridge))
                        &&& ((r is Ok || r == Err::<(), StreamError>(StreamError::SendFailed))
                            ==> handed_one(old(bridge).emitted@, final(bridge).emitted@)
                            && is_stream_event(
                            final(bridge).emitted@.last(),
                            StreamEventKind::Resume,
                            old(self).plugin_id@,
                            old(self).instance_id@,
                            stream_id@,
                        ))
                        &&& (r == Err::<(), StreamError>(StreamError::StreamCancelled) ==> final(bridge).emitted@ == old(bridge).emitted@)
                        &&& match r {
                            Ok(()) => find_stream(final(self).table(), stream_id@) == Some(
                                StreamInfo { status: StreamStatus::Active, ..e0 },
                            ),
                            Err(StreamError::StreamCancelled) => {
                                &&& find_stream(final(self).table(), stream_id@) == Some(
                                    StreamInfo { status: StreamStatus::Cancelled, ..e0 },
                                )
                                &&& final(bridge).shadow_status(stream_id@) == Some(
                                    StreamStatus::Cancelled,
                                )
                            },
                            Err(StreamError::SendFailed) => find_stream(
                                final(self).table(),
                                stream_id@,
                            ) == Some(e0),
                            _ => false,
                        }
                    }
                },
            },
    {
        let pos = self.find_pos(stream_id);
        let i = match pos {
            Some(i) => i,
            None => {
                return Err(StreamError::StreamNotFound);
            },
        };
        proof {
            lemma_key_index(stream_ids(self.table()), stream_id@);
        }
        match self.entries[i].status {
            StreamStatus::Paused => {},
            _ => {
                return Err(StreamError::InvalidState);
            },
        }
        let w = StreamMessageWrapper {
            kind: StreamEventKind::Resume,
            plugin_id: self.plugin_id.clone(),
            instance_id: self.instance_id.clone(),
            data: StreamMessageData::Control(
                StreamControlData { stream_id: stream_id.to_owned() },
            ),
            timestamp: crate::sys::now_unix_nanos() / 1000000,
        };
        let ghost gw = w;
        let ghost e0 = find_stream(old(self).table(), stream_id@)->Some_0;
        let sent = bridge.send_to_frontend(FrontendEvent::Stream(w));
        proof {
            if old(bridge).shadow_status(stream_id@) != Some(StreamStatus::Cancelled) {
                crate::bridge::lemma_shadow_step(
                    old(bridge).shadow(),
                    bridge.shadow(),
                    stream_id@,
                    gw.plugin_id@,
                    gw.instance_id@,
                    spec_announced_status(&gw),
                );
                assert(bridge.emitted@.drop_last() =~= old(bridge).emitted@);
                assert(is_stream_event(
                    bridge.emitted@.last(),
                    StreamEventKind::Resume,
                    old(self).plugin_id@,
                    old(self).instance_id@,
                    stream_id@,
                ));
            }
        }
        if sent {
            proof {
                lemma_stream_update(
                    self.table(),
                    i as int,
                    StreamInfo { status: StreamStatus::Active, ..e0 },
                );
            }
            let slot = &mut self.entries[i];
            slot.status = StreamStatus::Active;
            Ok(())
        } else {
            if bridge.is_stream_cancelled(stream_id) {
                proof {
                    lemma_stream_update(
                        self.table(),
                        i as int,
                        StreamInfo { status: StreamStatus::Cancelled, ..e0 },
                    );
                }
                let slot = &mut self.entries[i];
                slot.status = StreamStatus::Cancelled;
                Err(StreamError::StreamCancelled)
            } else {
                Err(StreamError::SendFailed)
            }
        }
    }

    /// Cancel a stream. Legal from Active, Paused and Finalizing and illegal
    /// from any terminal state. The entry is recorded as Cancelled whether
    /// or not the cancel event could be delivered; an undelivered event is
    /// reported as SendFailed.
    pub fn send_message_stream_cancel<T: ShellTransport>(
        &mut self,
        stream_id: &str,
        bridge: &mut HostBridge<T>,
    ) -> (r: Result<(), StreamError>)
        requires
            old(self).wf(),
            old(bridge).wf(),
        ensures
            final(self).wf(),
            final(bridge).wf(),
            final(self).same_identity(old(self)),
            forall|k: Seq<char>|
                k != stream_id@ ==> find_stream(final(self).table(), k) == find_stream(
                    old(self).table(),
                    k,
                ),
            match find_stream(old(self).table(), stream_id@) {
                None => r == Err::<(), StreamError>(StreamError::StreamNotFound) && final(self).table()
                    == old(self).table() && *final(bridge) == *old(bridge),
                Some(e0) => {
                    if is_terminal(e0.status) {
                        r == Err::<(), StreamError>(StreamError::InvalidState) && final(self).table()
                            == old(self).table() && *final(bridge) == *old(bridge)
                    } else {
                        &&& find_stream(final(self).table(), stream_id@) == Some(
                            StreamInfo { status: StreamStatus::Cancelled, ..e0 },
                        )
                        &&& (r is Ok ==> handed_one(old(bridge).emitted@, final(bridge).emitted@)
                            && is_stream_event(
                            final(bridge).emitted@.last(),
                            StreamEventKind::Cancel,
                            old(self).plugin_id@,
                            old(self).instance_id@,
                            stream_id@,
                        ))
                        &&& (r == Err::<(), StreamError>(StreamError::SendFailed) ==> {
                            if old(bridge).shadow_status(stream_id@) == Some(
                                StreamStatus::Cancelled,
                            ) {
                                *final(bridge) == *old(bridge)
                            } else {
                                handed_one(old(bridge).emitted@, final(bridge).emitted@)
                                    && is_stream_event(
                                    final(bridge).emitted@.last(),
                                    StreamEventKind::Cancel,
                                    old(self).plugin_id@,
                                    old(self).instance_id@,
                                    stream_id@,
                                )
                            }
                        })
                        &&& match r {
                            Ok(()) => true,
                            Err(StreamError::SendFailed) => true,
                            _ => false,
                        }
                    }
                },
            },
    {
        let pos = self.find_pos(stream_id);
        let i = match pos {
            Some(i) => i,
            None => {
                return Err(StreamError::StreamNotFound);
            },
        };
        proof {
            lemma_key_index(stream_ids(self.table()), stream_id@);
        }
        match self.entries[i].status {
            StreamStatus::Completed | StreamStatus::Error | StreamStatus::Cancelled => {
                return Err(StreamError::InvalidState);
            },
            _ => {},
        }
        let w = StreamMessageWrapper {
            kind: StreamEventKind::Cancel,
            plugin_id: self.plugin_id.clone(),
            instance_id: self.instance_id.clone(),
            data: StreamMessageData::Control(
                StreamControlData { stream_id: stream_id.to_owned() },
            ),
            timestamp: crate::sys::now_unix_nanos() / 1000000,
        };
        let ghost e0 = find_stream(old(self).table(), stream_id@)->Some_0;
        let sent = bridge.send_to_frontend(FrontendEvent::Stream(w));
        proof {
            lemma_stream_update(
                self.table(),
                i as int,
                StreamInfo { status: StreamStatus::Cancelled, ..e0 },
            );
            if old(bridge).shadow_status(stream_id@) != Some(StreamStatus::Cancelled) {
                assert(bridge.emitted@.drop_last() =~= old(bridge).emitted@);
                assert(is_stream_event(
                    bridge.emitted@.last(),
                    StreamEventKind::Cancel,
                    old(self).plugin_id@,
                    old(self).instance_id@,
                    stream_id@,
                ));
            }
        }
        let slot = &mut self.entries[i];
        slot.status = StreamStatus::Cancelled;
        if sent {
            Ok(())
        } else {
            Err(StreamError::SendFailed)
        }
    }

    /// Send several chunks in order, marking the last one final. Validation
    /// and failure reporting follow send_message_stream; after a delivered
    /// non-empty batch the stream is Finalizing.
    pub fn send_message_stream_batch<T: ShellTransport>(
        &mut self,
        stream_id: &str,
        chunks: &Vec<String>,
        bridge: &mut HostBridge<T>,
    ) -> (r: Result<(), StreamError>)
        requires
            old(self).wf(),
            old(bridge).wf(),
        ensures
            final(self).wf(),
            final(bridge).wf(),
            final(self).same_identity(old(self)),
            forall|k: Seq<char>|
                k != stream_id@ ==> find_stream(final(self).table(), k) == find_stream(
                    old(self).table(),
                    k,
                ),
            match find_stream(old(self).table(), stream_id@) {
                None => r == Err::<(), StreamError>(StreamError::StreamNotFound) && final(self).table()
                    == old(self).table() && *final(bridge) == *old(bridge),
                Some(e0) => {
                    if e0.status == StreamStatus::Paused {
                        r == Err::<(), StreamError>(StreamError::InvalidState) && final(self).table()
                            == old(self).table() && *final(bridge) == *old(bridge)
                    } else if is_terminal(e0.status) {
                        r == Err::<(), StreamError>(StreamError::StreamAlreadyEnded) && final(self).table()
                            == old(self).table() && *final(bridge) == *old(bridge)
                    } else {
                        &&& (chunks@.len() > 0 && old(bridge).shadow_status(stream_id@) == Some(
                            StreamStatus::Cancelled,
                        ) ==> r == Err::<(), StreamError>(StreamError::StreamCancelled)
                            && *final(bridge) == *old(bridge))
                        &&& (r is Ok ==> batch_emitted(
                            old(bridge).emitted@,
                            final(bridge).emitted@,
                            old(self).plugin_id@,
                            old(self).instance_id@,
                            stream_id@,
                            chunks@,
                            chunks@.len() as int,
                        ))
                        &&& (!(r is Ok) ==> exists|p: int|
                            #[trigger] batch_emitted(
                                old(bridge).emitted@,
                                final(bridge).emitted@,
                                old(self).plugin_id@,
                                old(self).instance_id@,
                                stream_id@,
                                chunks@,
                                p,
                            ))
                        &&& match r {
                            Ok(()) => {
                                &&& chunks@.len() > 0 ==> find_stream(
                                    final(self).table(),
                                    stream_id@,
                                ) == Some(StreamInfo { status: StreamStatus::Finalizing, ..e0 })
                                &&& chunks@.len() == 0 ==> final(self).table() == old(self).table()
                            },
                            Err(StreamError::StreamCancelled) => {
                                &&& find_stream(final(self).table(), stream_id@) == Some(
                                    StreamInfo { status: StreamStatus::Cancelled, ..e0 },
                                )
                                &&& final(bridge).shadow_status(stream_id@) == Some(
                                    StreamStatus::Cancelled,
                                )
                            },
                            Err(StreamError::SendFailed) => find_stream(
                                final(self).table(),
                                stream_id@,
                            ) == Some(e0),
                            _ => false,
                        }
                    }
                },
            },
    {
        let pos = self.find_pos(stream_id);
        let i = match pos {
            Some(i) => i,
            None => {
                return Err(StreamError::StreamNotFound);
            },
        };
        proof {
            lemma_key_index(stream_ids(self.table()), stream_id@);
        }
        match self.entries[i].status {
            StreamStatus::Paused => {
                return Err(StreamError::InvalidState);
            },
            StreamStatus::Completed | StreamStatus::Error | StreamStatus::Cancelled => {
                return Err(StreamError::StreamAlreadyEnded);
            },
            StreamStatus::Active | StreamStatus::Finalizing => {},
        }
        let ghost e0 = find_stream(old(self).table(), stream_id@)->Some_0;
        let n = chunks.len();
        let mut j: usize = 0;
        proof {
            assert(bridge.emitted@.subrange(0, old(bridge).emitted@.len() as int)
                =~= old(bridge).emitted@);
        }
        while j < n
            invariant
                n == chunks@.len(),
                j <= n,
                *self == *old(self),
                bridge.wf(),
                old(self).wf(),
                key_index(stream_ids(self.table()), stream_id@) == i,
                0 <= i < self.table().len(),
                self.table()[i as int].id@ == stream_id@,
                self.table()[i as int] == e0,
                find_stream(old(self).table(), stream_id@) == Some(e0),
                e0.status != StreamStatus::Paused,
                !is_terminal(e0.status),
                j == 0 ==> *bridge == *old(bridge),
                j > 0 ==> old(bridge).shadow_status(stream_id@) != Some(StreamStatus::Cancelled),
                batch_emitted(
                    old(bridge).emitted@,
                    bridge.emitted@,
                    old(self).plugin_id@,
                    old(self).instance_id@,
                    stream_id@,
                    chunks@,
                    j as int,
                ),
            decreases n - j,
        {
            let is_final = j + 1 == n;
            let w = StreamMessageWrapper {
                kind: StreamEventKind::Data,
                plugin_id: self.plugin_id.clone(),
                instance_id: self.instance_id.clone(),
                data: StreamMessageData::Data(
                    StreamDataData {
                        stream_id: stream_id.to_owned(),
                        chunk: chunks[j].clone(),
                        is_final,
                    },
                ),
                timestamp: crate::sys::now_unix_nanos() / 1000000,
            };
            let ghost pre_bridge = *bridge;
            let ghost gw = w;
            let sent = bridge.send_to_frontend(FrontendEvent::Stream(w));
            proof {
                if pre_bridge.shadow_status(stream_id@) != Some(StreamStatus::Cancelled) {
                    assert(bridge.emitted@.subrange(0, old(bridge).emitted@.len() as int)
                        =~= old(bridge).emitted@);
                    assert(bridge.emitted@[old(bridge).emitted@.len() + j] == FrontendEvent::Stream(
                        gw,
                    ));
                    assert(batch_emitted(
                        old(bridge).emitted@,
                        bridge.emitted@,
                        old(self).plugin_id@,
                        old(self).instance_id@,
                        stream_id@,
                        chunks@,
                        j + 1,
                    ));
                } else {
                    assert(*bridge == pre_bridge);
                }
            }
            if !sent {
                if bridge.is_stream_cancelled(stream_id) {
                    proof {
                        lemma_stream_update(
                            self.table(),
                            i as int,
                            StreamInfo { status: StreamStatus::Cancelled, ..e0 },
                        );
                        if pre_bridge.shadow_status(stream_id@) == Some(StreamStatus::Cancelled) {
                            assert(batch_emitted(
                                old(bridge).emitted@,
                                bridge.emitted@,
                                old(self).plugin_id@,
                                old(self).instance_id@,
                                stream_id@,
                                chunks@,
                                j as int,
                            ));
                        }
                    }
                    let slot = &mut self.entries[i];
                    slot.status = StreamStatus::Cancelled;
                    return Err(StreamError::StreamCancelled);
                } else {
                    return Err(StreamError::SendFailed);
                }
            }
            j += 1;
        }
        if n > 0 {
            proof {
                lemma_stream_update(
                    self.table(),
                    i as int,
                    StreamInfo { status: StreamStatus::Finalizing, ..e0 },
                );
            }
            let slot = &mut self.entries[i];
            slot.status = StreamStatus::Finalizing;
        }
        Ok(())
    }
}
} // verus!
