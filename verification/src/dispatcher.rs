//! The dispatcher: the single logical consumer that drains the inbound
//! queue every session's read loop feeds, and turns decoded packets into
//! outbound replies — status answers back to the originator, chat broadcast
//! to every registered session. Each outbound unit is one whole packet for
//! one recipient: a recipient's bytes are produced by its own session's
//! write path under that session's write guard, so no recipient ever sees
//! interleaved bytes. The queue is unbounded and drained without waiting;
//! envelopes keep their arrival order, so each session's packets are
//! handled in the order that session produced them.

use vstd::prelude::*;
use crate::packet::{Packet, PacketView};
use crate::registry::{contains_uuid, registry_wf, EntryView, SessionRegistry};
use crate::wire::{copy_range, push_bytes};

verus! {

/// The chat position tag of a broadcast chat message.
pub const CHAT_POSITION: u8 = 0;

/// Server-wide settings.
pub struct ServerSettings {
    pub max_players: u32,
    pub view_distance: u8,
}

impl ServerSettings {
    pub fn new(max_players: u32, view_distance: u8) -> (r: ServerSettings)
        ensures
            r.max_players == max_players,
            r.view_distance == view_distance,
    {
        ServerSettings { max_players, view_distance }
    }
}

/// One envelope of the inbound queue: the originating session's identity
/// and the decoded packet. Ownership passes from the session's read loop to
/// the dispatcher.
pub struct PacketBox {
    pub client_id: u128,
    pub packet: Packet,
}

/// The ghost shape of an envelope.
pub struct PacketBoxView {
    pub client_id: u128,
    pub packet: PacketView,
}

impl View for PacketBox {
    type V = PacketBoxView;

    open spec fn view(&self) -> PacketBoxView {
        PacketBoxView { client_id: self.client_id, packet: self.packet@ }
    }
}

impl PacketBox {
    pub fn new(id: u128, packet: Packet) -> (r: PacketBox)
        ensures
            r.client_id == id,
            r.packet == packet,
    {
        PacketBox { client_id: id, packet }
    }
}

/// One reply: a packet to deliver to the session registered under `target`.
pub struct Outbound {
    pub target: u128,
    pub packet: Packet,
}

/// The ghost shape of a reply.
pub struct OutboundView {
    pub target: u128,
    pub packet: PacketView,
}

impl View for Outbound {
    type V = OutboundView;

    open spec fn view(&self) -> OutboundView {
        OutboundView { target: self.target, packet: self.packet@ }
    }
}

/// The views of a reply list.
pub open spec fn out_views(s: Seq<Outbound>) -> Seq<OutboundView> {
    s.map_values(|o: Outbound| o@)
}

/// A broadcast chat line: the sender's name in angle brackets, a space,
/// then the message.
pub open spec fn chat_line(sender: Seq<u8>, message: Seq<u8>) -> Seq<u8> {
    seq![60u8] + sender + seq![62u8, 32u8] + message
}

/// Formats a broadcast chat line.
pub fn format_chat(sender: &Vec<u8>, message: &Vec<u8>) -> (r: Vec<u8>)
    ensures
        r@ == chat_line(sender@, message@),
{
    let mut out: Vec<u8> = Vec::new();
    out.push(60);
    push_bytes(&mut out, sender);
    out.push(62);
    out.push(32);
    push_bytes(&mut out, message);
    proof {
        assert(out@ =~= chat_line(sender@, message@));
    }
    out
}

/// The index of the entry registered under `uuid`.
pub open spec fn uuid_index(reg: Seq<EntryView>, uuid: u128) -> int {
    choose|i: int| 0 <= i < reg.len() && reg[i].uuid == uuid
}

/// A chat broadcast: one outbound chat packet per registered session, in
/// registry order — the sender included.
pub open spec fn broadcast_spec(reg: Seq<EntryView>, line: Seq<u8>, sender: u128) -> Seq<
    OutboundView,
> {
    Seq::new(
        reg.len(),
        |i: int|
            OutboundView {
                target: reg[i].uuid,
                packet: PacketView::PlayServerChatMessage {
                    message: line,
                    position: CHAT_POSITION,
                    sender,
                },
            },
    )
}

/// What dispatching one envelope produces. Status requests and pings are
/// answered inline to the originator; a chat packet from a registered
/// session is broadcast to every registered session, prefixed with the
/// sender's name; any packet without a handler is silently ignored.
pub open spec fn dispatch_spec(
    reg: Seq<EntryView>,
    status: Seq<u8>,
    env_id: u128,
    p: PacketView,
) -> Seq<OutboundView> {
    match p {
        PacketView::StatusRequest => seq![
            OutboundView { target: env_id, packet: PacketView::StatusResponse { json: status } },
        ],
        PacketView::StatusPing { payload } => seq![
            OutboundView { target: env_id, packet: PacketView::StatusPong { payload } },
        ],
        PacketView::PlayClientChatMessage { message } => {
            if contains_uuid(reg, env_id) {
                broadcast_spec(reg, chat_line(reg[uuid_index(reg, env_id)].name, message), env_id)
            } else {
                Seq::empty()
            }
        },
        _ => Seq::empty(),
    }
}

/// What draining a queue produces: each envelope's replies, in queue order.
pub open spec fn drain_spec(
    reg: Seq<EntryView>,
    status: Seq<u8>,
    queue: Seq<PacketBoxView>,
) -> Seq<OutboundView>
    decreases queue.len(),
{
    if queue.len() == 0 {
        Seq::empty()
    } else {
        dispatch_spec(reg, status, queue[0].client_id, queue[0].packet) + drain_spec(
            reg,
            status,
            queue.skip(1),
        )
    }
}

/// The dispatcher and the shared state it owns: the session registry, the
/// ready-to-serialize status payload a collaborator supplies, the settings,
/// and the inbound queue.
pub struct Server {
    pub registry: SessionRegistry,
    pub status_json: Vec<u8>,
    pub settings: ServerSettings,
    pub queue: Vec<PacketBox>,
}

impl Server {
    /// The queued envelopes, in arrival order.
    pub open spec fn queue_view(&self) -> Seq<PacketBoxView> {
        self.queue@.map_values(|b: PacketBox| b@)
    }

    /// A fresh dispatcher with an empty registry and queue.
    pub fn new(status_json: Vec<u8>, settings: ServerSettings) -> (r: Server)
        ensures
            r.registry@ == Seq::<EntryView>::empty(),
            registry_wf(r.registry@),
            r.status_json == status_json,
            r.settings == settings,
            r.queue_view() == Seq::<PacketBoxView>::empty(),
    {
        let r = Server {
            registry: SessionRegistry::new(),
            status_json,
            settings,
            queue: Vec::new(),
        };
        proof {
            assert(r.queue_view() =~= Seq::<PacketBoxView>::empty());
        }
        r
    }

    /// Whether a further login must be kicked for capacity.
    pub fn server_full(&self) -> (r: bool)
        ensures
            r == (self.registry@.len() >= self.settings.max_players),
    {
        self.registry.len() >= self.settings.max_players as usize
    }

    /// A session's read loop hands an envelope over. The queue is unbounded:
    /// a slow consumer delays delivery but never drops or blocks a producer.
    pub fn submit(&mut self, b: PacketBox)
        ensures
            final(self).queue_view() == old(self).queue_view().push(b@),
            final(self).registry == old(self).registry,
            final(self).status_json == old(self).status_json,
            final(self).settings == old(self).settings,
    {
        let ghost pre = self.queue_view();
        self.queue.push(b);
        proof {
            assert(self.queue_view() =~= pre.push(self.queue@[self.queue@.len() - 1]@));
        }
    }

    /// The broadcast of one already-formatted chat line to every registered
    /// session, the sender included, in registry order.
    pub fn broadcast_chat(&self, line: &Vec<u8>, sender: u128) -> (r: Vec<Outbound>)
        ensures
            out_views(r@) == broadcast_spec(self.registry@, line@, sender),
    {
        let n = self.registry.len();
        let mut out: Vec<Outbound> = Vec::new();
        let mut i: usize = 0;
        while i < n
            invariant
                i <= n,
                n == self.registry@.len(),
                out@.len() == i,
                forall|k: int|
                    0 <= k < i ==> #[trigger] out@[k]@ == broadcast_spec(
                        self.registry@,
                        line@,
                        sender,
                    )[k],
            decreases n - i,
        {
            let msg = copy_range(line, 0, line.len());
            proof {
                assert(msg@ =~= line@);
            }
            let target = self.registry.uuid_at(i);
            out.push(
                Outbound {
                    target,
                    packet: Packet::PlayServerChatMessage {
                        message: msg,
                        position: CHAT_POSITION,
                        sender,
                    },
                },
            );
            i = i + 1;
        }
        proof {
            assert(out_views(out@) =~= broadcast_spec(self.registry@, line@, sender));
        }
        out
    }

    /// Dispatches one envelope.
    pub fn handle_packet(&self, b: &PacketBox) -> (r: Vec<Outbound>)
        requires
            registry_wf(self.registry@),
        ensures
            out_views(r@) == dispatch_spec(self.registry@, self.status_json@, b.client_id, b.packet@),
    {
        match &b.packet {
            Packet::StatusRequest => {
                let json = copy_range(&self.status_json, 0, self.status_json.len());
                proof {
                    assert(json@ =~= self.status_json@);
                }
                let out = vec![Outbound { target: b.client_id, packet: Packet::StatusResponse { json } }];
                proof {
                    assert(out_views(out@) =~= dispatch_spec(
                        self.registry@,
                        self.status_json@,
                        b.client_id,
                        b.packet@,
                    ));
                }
                out
            },
            Packet::StatusPing { payload } => {
                let out = vec![
                    Outbound { target: b.client_id, packet: Packet::StatusPong { payload: *payload } },
                ];
                proof {
                    assert(out_views(out@) =~= dispatch_spec(
                        self.registry@,
                        self.status_json@,
                        b.client_id,
                        b.packet@,
                    ));
                }
                out
            },
            Packet::PlayClientChatMessage { message } => {
                match self.registry.get_client(b.client_id) {
                    Some(i) => {
                        proof {
                            assert(contains_uuid(self.registry@, b.client_id));
                            let j = uuid_index(self.registry@, b.client_id);
                            assert(0 <= j < self.registry@.len() && self.registry@[j].uuid
                                == b.client_id);
                            if j != i {
                                let a = if j < i { j } else { i as int };
                                let c = if j < i { i as int } else { j };
                                assert(self.registry@[a].name != self.registry@[c].name
                                    && self.registry@[a].uuid != self.registry@[c].uuid);
                                assert(false);
                            }
                        }
                        let line = format_chat(self.registry.name_at(i), message);
                        self.broadcast_chat(&line, b.client_id)
                    },
                    None => {
                        let out: Vec<Outbound> = Vec::new();
                        proof {
                            assert(out_views(out@) =~= Seq::<OutboundView>::empty());
                        }
                        out
                    },
                }
            },
            _ => {
                let out: Vec<Outbound> = Vec::new();
                proof {
                    assert(out_views(out@) =~= Seq::<OutboundView>::empty());
                }
                out
            },
        }
    }

    /// One activation of the dispatcher: drains every envelope available
    /// now — never waiting for more — and yields the replies, in queue
    /// order. Per-session order is thereby preserved: a session's packets
    /// are handled in the order its read loop enqueued them.
    pub fn handle_packets(&mut self) -> (r: Vec<Outbound>)
        requires
            registry_wf(old(self).registry@),
        ensures
            final(self).queue_view() == Seq::<PacketBoxView>::empty(),
            final(self).registry == old(self).registry,
            final(self).status_json == old(self).status_json,
            final(self).settings == old(self).settings,
            out_views(r@) == drain_spec(
                old(self).registry@,
                old(self).status_json@,
                old(self).queue_view(),
            ),
    {
        let ghost q0 = self.queue_view();
        let mut out: Vec<Outbound> = Vec::new();
        let n = self.queue.len();
        let mut i: usize = 0;
        proof {
            assert(q0.skip(0) =~= q0);
            assert(out_views(out@) =~= Seq::<OutboundView>::empty());
        }
        while i < n
            invariant
                i <= n,
                n == self.queue_view().len(),
                self.queue_view() == q0,
                self.registry == old(self).registry,
                self.status_json == old(self).status_json,
                self.settings == old(self).settings,
                registry_wf(self.registry@),
                out_views(out@) + drain_spec(self.registry@, self.status_json@, q0.skip(i as int))
                    =~= drain_spec(self.registry@, self.status_json@, q0),
            decreases n - i,
        {
            let ghost pre = out_views(out@);
            assert(self.queue_view()[i as int] == self.queue@[i as int]@);
            let replies = self.handle_packet(&self.queue[i]);
            let ghost rv = out_views(replies@);
            push_outbound(&mut out, replies);
            proof {
                assert(out_views(out@) =~= pre + rv);
                let rest = q0.skip(i as int);
                assert(rest[0] == q0[i as int]);
                assert(rest.skip(1) =~= q0.skip(i + 1));
                assert(dispatch_spec(self.registry@, self.status_json@, rest[0].client_id, rest[0].packet)
                    =~= rv);
                assert(out_views(out@) + drain_spec(self.registry@, self.status_json@, q0.skip(i + 1))
                    =~= drain_spec(self.registry@, self.status_json@, q0));
            }
            i = i + 1;
        }
        self.queue = Vec::new();
        proof {
            assert(q0.skip(n as int) =~= Seq::<PacketBoxView>::empty());
            assert(drain_spec(self.registry@, self.status_json@, q0.skip(n as int))
                =~= Seq::<OutboundView>::empty());
            assert(out_views(out@) =~= drain_spec(self.registry@, self.status_json@, q0));
            assert(self.queue_view() =~= Seq::<PacketBoxView>::empty());
        }
        out
    }
}

/// How long the tick loop may sleep after a tick that took `elapsed_ms` of
/// its `tick_ms` budget: the remainder, and zero — skip the sleep, never
/// underflow — when the work overran the budget.
pub fn tick_sleep_budget(tick_ms: u64, elapsed_ms: u64) -> (r: u64)
    ensures
        r == if elapsed_ms < tick_ms {
            tick_ms - elapsed_ms
        } else {
            0
        },
{
    if elapsed_ms < tick_ms {
        tick_ms - elapsed_ms
    } else {
        0
    }
}

/// Appends every reply of `more` to `out`.
fn push_outbound(out: &mut Vec<Outbound>, more: Vec<Outbound>)
    ensures
        final(out)@ == old(out)@ + more@,
{
    let mut rest = more;
    let ghost all = rest@;
    let n0 = rest.len();
    let mut taken: usize = 0;
    while rest.len() > 0
        invariant
            n0 == all.len(),
            taken <= n0,
            taken + rest@.len() == all.len(),
            out@ =~= old(out)@ + all.take(taken as int),
            rest@ =~= all.skip(taken as int),
        decreases rest@.len(),
    {
        let x = rest.remove(0);
        out.push(x);
        taken = taken + 1;
        proof {
            assert(all.take(taken as int) =~= all.take(taken - 1) + seq![all[taken - 1]]);
            assert(out@ =~= old(out)@ + all.take(taken as int));
            assert(rest@ =~= all.skip(taken as int));
        }
    }
    proof {
        assert(all.take(all.len() as int) =~= all);
        assert(out@ =~= old(out)@ + all);
    }
}

/// Law: a chat packet from a registered sender is delivered exactly once to
/// every registered session — as many outbound packets as sessions, the
/// recipient of the k-th being the k-th registered session — and every copy
/// carries the same line: the sender's name in angle brackets, then the
/// message. Each copy is one whole packet for one recipient, written
/// through that recipient's own serialized write path.
pub proof fn lemma_chat_broadcast(
    reg: Seq<EntryView>,
    status: Seq<u8>,
    sender: u128,
    message: Seq<u8>,
)
    requires
        registry_wf(reg),
        contains_uuid(reg, sender),
    ensures
        ({
            let outs = dispatch_spec(
                reg,
                status,
                sender,
                PacketView::PlayClientChatMessage { message },
            );
            let line = chat_line(reg[uuid_index(reg, sender)].name, message);
            &&& outs.len() == reg.len()
            &&& forall|k: int| 0 <= k < reg.len() ==> #[trigger] outs[k].target == reg[k].uuid
            &&& forall|k: int|
                0 <= k < reg.len() ==> #[trigger] outs[k].packet == (
                PacketView::PlayServerChatMessage {
                    message: line,
                    position: CHAT_POSITION,
                    sender,
                })
        }),
{
}

} // verus!
