//! The host callback bridge: the one routing target through which every
//! outgoing event reaches the shell. For stream events it keeps the host-side
//! shadow ledger and refuses delivery for streams the host has cancelled, so
//! that cancellation is enforceable centrally whatever the plugin does.

use vstd::prelude::*;
use crate::keyed::{distinct_keys, key_index, lemma_key_index, lemma_key_index_at,
    lemma_key_index_push};
use crate::message::FrontendEvent;
use crate::stream::{announced_status, is_terminal, spec_announced_status, spec_stream_id,
    stream_id_of, StreamStatus};
use crate::strutil::str_eq;

verus! {

/// The shell side of the bridge: whatever actually carries an event to the
/// frontend. The host application implements this over its windowing shell;
/// tests implement it with a recording sink. Nothing is assumed of an
/// implementation beyond its signature.
pub trait ShellTransport {
    /// Carry one event to the frontend; report whether it was accepted.
    fn emit(&mut self, event: FrontendEvent) -> bool;
}

/// A transport that keeps every accepted event, in order. With accept set
/// to false it refuses everything, which exercises the rollback paths.
pub struct RecordingTransport {
    pub events: Vec<FrontendEvent>,
    pub accept: bool,
}

impl RecordingTransport {
    /// A transport that accepts every event.
    pub fn new() -> (r: RecordingTransport)
        ensures
            r.events@ =~= Seq::<FrontendEvent>::empty(),
            r.accept,
    {
        RecordingTransport { events: Vec::new(), accept: true }
    }
}

impl ShellTransport for RecordingTransport {
    fn emit(&mut self, event: FrontendEvent) -> (r: bool)
        ensures
            old(self).accept ==> r && final(self).events@ == old(self).events@.push(event),
            !old(self).accept ==> !r && final(self).events@ == old(self).events@,
            final(self).accept == old(self).accept,
    {
        if self.accept {
            self.events.push(event);
            true
        } else {
            false
        }
    }
}

/// One entry of the host-side shadow ledger.
#[derive(Debug)]
pub struct BackendStreamInfo {
    pub stream_id: String,
    pub plugin_id: String,
    pub instance_id: String,
    pub status: StreamStatus,
    pub created_at: u64,
}

impl Clone for BackendStreamInfo {
    fn clone(&self) -> (res: Self)
        ensures
            res == *self,
    {
        BackendStreamInfo {
            stream_id: self.stream_id.clone(),
            plugin_id: self.plugin_id.clone(),
            instance_id: self.instance_id.clone(),
            status: self.status,
            created_at: self.created_at,
        }
    }
}

/// The stream ids of a ledger, in table order.
pub open spec fn shadow_ids(s: Seq<BackendStreamInfo>) -> Seq<Seq<char>> {
    s.map_values(|e: BackendStreamInfo| e.stream_id@)
}

/// The ledger entry for one stream id, if any.
pub open spec fn shadow_find(s: Seq<BackendStreamInfo>, id: Seq<char>) -> Option<
    BackendStreamInfo,
> {
    let i = key_index(shadow_ids(s), id);
    if i >= 0 {
        Some(s[i])
    } else {
        None
    }
}

/// The recorded status for one stream id, if any.
pub open spec fn shadow_status_of(s: Seq<BackendStreamInfo>, id: Seq<char>) -> Option<
    StreamStatus,
> {
    match shadow_find(s, id) {
        Some(e) => Some(e.status),
        None => None,
    }
}

/// How one announced status transforms the ledger: Active inserts or
/// replaces the entry, a terminal status removes it, and Paused or
/// Finalizing updates an existing entry in place. The created_at stamp of a
/// written entry is taken from the clock and is not constrained here.
pub open spec fn shadow_step(
    pre: Seq<BackendStreamInfo>,
    post: Seq<BackendStreamInfo>,
    id: Seq<char>,
    plugin_id: Seq<char>,
    instance_id: Seq<char>,
    status: StreamStatus,
) -> bool {
    let i = key_index(shadow_ids(pre), id);
    if status == StreamStatus::Active {
        if i >= 0 {
            &&& post.len() == pre.len()
            &&& forall|j: int| 0 <= j < pre.len() && j != i ==> post[j] == pre[j]
            &&& post[i].stream_id@ == id
            &&& post[i].plugin_id@ == plugin_id
            &&& post[i].instance_id@ == instance_id
            &&& post[i].status == StreamStatus::Active
        } else {
            &&& post.len() == pre.len() + 1
            &&& forall|j: int| 0 <= j < pre.len() ==> post[j] == pre[j]
            &&& post[pre.len() as int].stream_id@ == id
            &&& post[pre.len() as int].plugin_id@ == plugin_id
            &&& post[pre.len() as int].instance_id@ == instance_id
            &&& post[pre.len() as int].status == StreamStatus::Active
        }
    } else if is_terminal(status) {
        if i >= 0 {
            post == pre.remove(i)
        } else {
            post == pre
        }
    } else {
        if i >= 0 {
            post == pre.update(i, BackendStreamInfo { status, ..pre[i] })
        } else {
            post == pre
        }
    }
}

/// A shadow step preserves key distinctness and yields the expected lookup
/// result for the stepped id, leaving every other id's entry unchanged.
pub proof fn lemma_shadow_step(
    pre: Seq<BackendStreamInfo>,
    post: Seq<BackendStreamInfo>,
    id: Seq<char>,
    plugin_id: Seq<char>,
    instance_id: Seq<char>,
    status: StreamStatus,
)
    requires
        distinct_keys(shadow_ids(pre)),
        shadow_step(pre, post, id, plugin_id, instance_id, status),
    ensures
        distinct_keys(shadow_ids(post)),
        status == StreamStatus::Active ==> shadow_status_of(post, id) == Some(
            StreamStatus::Active,
        ),
        is_terminal(status) ==> shadow_status_of(post, id) is None,
        !is_terminal(status) && status != StreamStatus::Active ==> shadow_status_of(post, id) == (
        match shadow_status_of(pre, id) {
            Some(_) => Some(status),
            None => None,
        }),
        forall|k: Seq<char>| k != id ==> shadow_find(post, k) == shadow_find(pre, k),
{
    lemma_key_index(shadow_ids(pre), id);
    let i = key_index(shadow_ids(pre), id);
    if status == StreamStatus::Active {
        if i >= 0 {
            assert(shadow_ids(post) =~= shadow_ids(pre));
            lemma_frame_after_update(pre, post, i, id);
            lemma_key_index_at(shadow_ids(post), id, i);
        } else {
            assert(shadow_ids(post) =~= shadow_ids(pre).push(id));
            lemma_key_index_push(shadow_ids(pre), id, id);
            lemma_key_index_at(shadow_ids(post), id, pre.len() as int);
            assert forall|k: Seq<char>| k != id implies shadow_find(post, k) == shadow_find(
                pre,
                k,
            ) by {
                lemma_key_index_push(shadow_ids(pre), k, id);
                lemma_key_index(shadow_ids(pre), k);
            }
            assert forall|a: int, b: int|
                0 <= a < b < shadow_ids(post).len() implies shadow_ids(post)[a] != shadow_ids(
                post,
            )[b] by {
                if b == pre.len() as int {
                    assert(shadow_ids(pre)[a] != id);
                }
            }
        }
    } else if is_terminal(status) {
        if i >= 0 {
            assert(shadow_ids(post) =~= shadow_ids(pre).remove(i));
            assert forall|a: int, b: int|
                0 <= a < b < shadow_ids(post).len() implies shadow_ids(post)[a] != shadow_ids(
                post,
            )[b] by {
                let a0 = if a < i {
                    a
                } else {
                    a + 1
                };
                let b0 = if b < i {
                    b
                } else {
                    b + 1
                };
                assert(shadow_ids(pre)[a0] != shadow_ids(pre)[b0]);
            }
            lemma_key_index(shadow_ids(post), id);
            let r = key_index(shadow_ids(post), id);
            if r >= 0 {
                let r0 = if r < i {
                    r
                } else {
                    r + 1
                };
                assert(shadow_ids(pre)[r0] == id);
                assert(shadow_ids(pre)[i] == id);
            }
            assert forall|k: Seq<char>| k != id implies shadow_find(post, k) == shadow_find(
                pre,
                k,
            ) by {
                lemma_key_index(shadow_ids(pre), k);
                lemma_key_index(shadow_ids(post), k);
                let rp = key_index(shadow_ids(pre), k);
                let rq = key_index(shadow_ids(post), k);
                if rp >= 0 {
                    let rn = if rp < i {
                        rp
                    } else {
                        rp - 1
                    };
                    assert(rp != i);
                    assert(shadow_ids(post)[rn] == k);
                    lemma_key_index_at(shadow_ids(post), k, rn);
                } else {
                    if rq >= 0 {
                        let rq0 = if rq < i {
                            rq
                        } else {
                            rq + 1
                        };
                        assert(shadow_ids(pre)[rq0] == k);
                    }
                }
            }
        }
    } else {
        if i >= 0 {
            assert(shadow_ids(post) =~= shadow_ids(pre));
            lemma_frame_after_update(pre, post, i, id);
            lemma_key_index_at(shadow_ids(post), id, i);
        }
    }
}

/// After replacing the entry at the position of id, keeping that id, every
/// other id still resolves to its old entry.
proof fn lemma_frame_after_update(
    pre: Seq<BackendStreamInfo>,
    post: Seq<BackendStreamInfo>,
    i: int,
    id: Seq<char>,
)
    requires
        distinct_keys(shadow_ids(pre)),
        0 <= i < pre.len(),
        shadow_ids(pre)[i] == id,
        post.len() == pre.len(),
        forall|j: int| 0 <= j < pre.len() && j != i ==> post[j] == pre[j],
        post[i].stream_id@ == id,
    ensures
        forall|k: Seq<char>| k != id ==> shadow_find(post, k) == shadow_find(pre, k),
        distinct_keys(shadow_ids(post)),
{
    assert(shadow_ids(post) =~= shadow_ids(pre));
    assert forall|k: Seq<char>| k != id implies shadow_find(post, k) == shadow_find(pre, k) by {
        lemma_key_index(shadow_ids(pre), k);
        let r = key_index(shadow_ids(pre), k);
        if r >= 0 {
            assert(r != i);
        }
    }
}

/// The write-once routing target shared by every instance: a transport to
/// the shell plus the shadow ledger that decides stream delivery. The ghost
/// emission log records, in order, exactly the events handed to the
/// transport, so that every sender's contract can say what it delivered.
pub struct HostBridge<T> {
    pub transport: T,
    pub ledger: Vec<BackendStreamInfo>,
    pub emitted: Ghost<Seq<FrontendEvent>>,
}

impl<T: ShellTransport> HostBridge<T> {
    /// The shadow ledger contents.
    pub open spec fn shadow(&self) -> Seq<BackendStreamInfo> {
        self.ledger@
    }

    /// The ledger never holds two entries for one stream id.
    pub open spec fn wf(&self) -> bool {
        distinct_keys(shadow_ids(self.shadow()))
    }

    /// The recorded status of one stream, if any.
    pub open spec fn shadow_status(&self, id: Seq<char>) -> Option<StreamStatus> {
        shadow_status_of(self.shadow(), id)
    }

    /// A bridge with an empty ledger.
    pub fn new(transport: T) -> (r: HostBridge<T>)
        ensures
            r.wf(),
            r.shadow() =~= Seq::<BackendStreamInfo>::empty(),
            r.transport == transport,
            r.emitted@ =~= Seq::<FrontendEvent>::empty(),
    {
        HostBridge { transport, ledger: Vec::new(), emitted: Ghost(Seq::empty()) }
    }

    /// The ledger position of a stream id.
    fn shadow_pos(&self, stream_id: &str) -> (r: Option<usize>)
        ensures
            match r {
                Some(i) => key_index(shadow_ids(self.shadow()), stream_id@) == i,
                None => key_index(shadow_ids(self.shadow()), stream_id@) == -1,
            },
    {
        let n = self.ledger.len();
        let mut i: usize = 0;
        while i < n
            invariant
                n == self.ledger@.len(),
                i <= n,
                forall|j: int| 0 <= j < i ==> shadow_ids(self.shadow())[j] != stream_id@,
            decreases n - i,
        {
            if str_eq(self.ledger[i].stream_id.as_str(), stream_id) {
                proof {
                    lemma_key_index_at(shadow_ids(self.shadow()), stream_id@, i as int);
                }
                return Some(i);
            }
            i += 1;
        }
        proof {
            lemma_key_index(shadow_ids(self.shadow()), stream_id@);
            let r = key_index(shadow_ids(self.shadow()), stream_id@);
            if r >= 0 {
                assert(shadow_ids(self.shadow())[r] != stream_id@);
            }
        }
        None
    }

    /// Whether the host has cancelled this stream. Entries for streams that
    /// ended on their own are removed, so this is true exactly for streams
    /// the ledger still holds as Cancelled.
    pub fn is_stream_cancelled(&self, stream_id: &str) -> (r: bool)
        ensures
            r == (self.shadow_status(stream_id@) == Some(StreamStatus::Cancelled)),
    {
        match self.shadow_pos(stream_id) {
            Some(i) => {
                proof {
                    lemma_key_index(shadow_ids(self.shadow()), stream_id@);
                }
                matches!(self.ledger[i].status, StreamStatus::Cancelled)
            },
            None => false,
        }
    }

    /// The ledger entry for one stream, if any.
    pub fn get_shadow_entry(&self, stream_id: &str) -> (r: Option<BackendStreamInfo>)
        ensures
            r == shadow_find(self.shadow(), stream_id@),
    {
        match self.shadow_pos(stream_id) {
            Some(i) => {
                proof {
                    lemma_key_index(shadow_ids(self.shadow()), stream_id@);
                }
                Some(self.ledger[i].clone())
            },
            None => None,
        }
    }

    /// Overwrite the recorded status of one stream in place, keeping the
    /// entry whatever the new status is. Reports whether the stream was
    /// found. This is how the host cancels: the entry must stay in the
    /// ledger so that delivery keeps being refused.
    pub fn set_shadow_status(&mut self, stream_id: &str, status: StreamStatus) -> (r: bool)
        requires
            old(self).wf(),
        ensures
            final(self).wf(),
            final(self).transport == old(self).transport,
            final(self).emitted == old(self).emitted,
            match shadow_find(old(self).shadow(), stream_id@) {
                Some(e0) => {
                    &&& r
                    &&& final(self).shadow_status(stream_id@) == Some(status)
                    &&& shadow_find(final(self).shadow(), stream_id@) == Some(
                        BackendStreamInfo { status, ..e0 },
                    )
                    &&& forall|k: Seq<char>|
                        k != stream_id@ ==> shadow_find(final(self).shadow(), k) == shadow_find(
                            old(self).shadow(),
                            k,
                        )
                },
                None => !r && *final(self) == *old(self),
            },
    {
        match self.shadow_pos(stream_id) {
            Some(i) => {
                proof {
                    lemma_key_index(shadow_ids(old(self).shadow()), stream_id@);
                }
                let slot = &mut self.ledger[i];
                slot.status = status;
                proof {
                    lemma_frame_after_update(
                        old(self).shadow(),
                        self.shadow(),
                        i as int,
                        stream_id@,
                    );
                    lemma_key_index_at(shadow_ids(self.shadow()), stream_id@, i as int);
                }
                true
            },
            None => false,
        }
    }

    /// Record one announced status in the ledger: insert or replace on
    /// Active, remove on a terminal status, update in place otherwise.
    pub fn update_stream_status(
        &mut self,
        stream_id: &str,
        plugin_id: &str,
        instance_id: &str,
        status: StreamStatus,
    )
        requires
            old(self).wf(),
        ensures
            final(self).wf(),
            final(self).transport == old(self).transport,
            final(self).emitted == old(self).emitted,
            shadow_step(
                old(self).shadow(),
                final(self).shadow(),
                stream_id@,
                plugin_id@,
                instance_id@,
                status,
            ),
    {
        let pos = self.shadow_pos(stream_id);
        proof {
            lemma_key_index(shadow_ids(old(self).shadow()), stream_id@);
        }
        match status {
            StreamStatus::Active => {
                let entry = BackendStreamInfo {
                    stream_id: stream_id.to_owned(),
                    plugin_id: plugin_id.to_owned(),
                    instance_id: instance_id.to_owned(),
                    status: StreamStatus::Active,
                    created_at: crate::sys::now_unix_nanos() / 1000000000,
                };
                match pos {
                    Some(i) => {
                        let slot = &mut self.ledger[i];
                        *slot = entry;
                    },
                    None => {
                        self.ledger.push(entry);
                    },
                }
                proof {
                    lemma_shadow_step(
                        old(self).shadow(),
                        self.shadow(),
                        stream_id@,
                        plugin_id@,
                        instance_id@,
                        status,
                    );
                }
            },
            StreamStatus::Completed | StreamStatus::Error | StreamStatus::Cancelled => {
                match pos {
                    Some(i) => {
                        self.ledger.remove(i);
                    },
                    None => {},
                }
                proof {
                    lemma_shadow_step(
                        old(self).shadow(),
                        self.shadow(),
                        stream_id@,
                        plugin_id@,
                        instance_id@,
                        status,
                    );
                }
            },
            StreamStatus::Paused | StreamStatus::Finalizing => {
                match pos {
                    Some(i) => {
                        let slot = &mut self.ledger[i];
                        slot.status = status;
                    },
                    None => {},
                }
                proof {
                    lemma_shadow_step(
                        old(self).shadow(),
                        self.shadow(),
                        stream_id@,
                        plugin_id@,
                        instance_id@,
                        status,
                    );
                }
            },
        }
    }

    /// Hand one event straight to the transport, past the cancellation
    /// check and without touching the ledger. This is how the host itself
    /// announces a cancellation it has just recorded. The event is logged
    /// like any other emission.
    pub fn emit_direct(&mut self, event: FrontendEvent) -> (r: bool)
        ensures
            final(self).ledger == old(self).ledger,
            final(self).emitted@ == old(self).emitted@.push(event),
    {
        let ghost handed = event;
        self.emitted = Ghost(self.emitted@.push(handed));
        self.transport.emit(event)
    }

    /// Route one event towards the shell. A stream event whose stream the
    /// ledger holds as Cancelled is refused outright: nothing is handed to
    /// the transport and nothing changes. Any other stream event first
    /// updates the ledger with the status it announces, then goes to the
    /// transport; events on the other channels pass straight through. Every
    /// event handed over is recorded in the emission log, whatever the
    /// transport answers.
    pub fn send_to_frontend(&mut self, event: FrontendEvent) -> (r: bool)
        requires
            old(self).wf(),
        ensures
            final(self).wf(),
            match event {
                FrontendEvent::Stream(w) => {
                    if old(self).shadow_status(spec_stream_id(&w.data)) == Some(
                        StreamStatus::Cancelled,
                    ) {
                        !r && *final(self) == *old(self)
                    } else {
                        &&& shadow_step(
                            old(self).shadow(),
                            final(self).shadow(),
                            spec_stream_id(&w.data),
                            w.plugin_id@,
                            w.instance_id@,
                            spec_announced_status(&w),
                        )
                        &&& final(self).emitted@ == old(self).emitted@.push(event)
                    }
                },
                _ => final(self).shadow() == old(self).shadow() && final(self).emitted@ == old(
                    self,
                ).emitted@.push(event),
            },
    {
        let ghost handed = event;
        match event {
            FrontendEvent::Stream(w) => {
                let cancelled = {
                    let sid = stream_id_of(&w.data);
                    self.is_stream_cancelled(sid.as_str())
                };
                if cancelled {
                    return false;
                }
                let status = announced_status(&w);
                {
                    let sid = stream_id_of(&w.data).clone();
                    let pid = w.plugin_id.clone();
                    let iid = w.instance_id.clone();
                    self.update_stream_status(
                        sid.as_str(),
                        pid.as_str(),
                        iid.as_str(),
                        status,
                    );
                }
                self.emitted = Ghost(self.emitted@.push(handed));
                self.transport.emit(FrontendEvent::Stream(w))
            },
            other => {
                self.emitted = Ghost(self.emitted@.push(handed));
                self.transport.emit(other)
            },
        }
    }
}

} // verus!
