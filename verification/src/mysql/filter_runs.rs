//! What a [`command_filter::CommandFilter`] makes of a whole stream, however
//! the stream is cut into reads and however the client takes its replies.
use crate::mysql::command_filter;
use vstd::prelude::*;

verus! {

/// A filter on its way through a stream: its phase, what it has handed over,
/// replied and asked for so far, and the bytes that it has not read.
pub struct Progress {
    pub phase: command_filter::Phase,
    pub done: command_filter::Outcome,
    pub left: Seq<u8>,
}

/// One thing that a filter tells its caller to do, and how far the caller
/// came with it. A read that brings nothing is the end of the stream.
pub enum Turn {
    /// `Step::Read`, reported to `received`.
    Received(nat),
    /// `Step::Hand`.
    Handed(nat),
    /// `Step::Forward`, reported to `forwarded`.
    Forwarded(nat),
    /// `Step::Discard`, reported to `discarded`.
    Discarded(nat),
    /// `Step::Send`, reported to `sent`.
    Sent(nat),
    /// `Step::Flush`, reported to `flushed`.
    Flushed,
}

/// One outcome and then another.
pub open spec fn joined(
    a: command_filter::Outcome,
    b: command_filter::Outcome,
) -> command_filter::Outcome {
    command_filter::Outcome {
        forwarded: a.forwarded + b.forwarded,
        replied: a.replied + b.replied,
        reset: a.reset || b.reset,
    }
}

/// A filter before the first byte.
pub open spec fn begun(input: Seq<u8>) -> Progress {
    Progress { phase: command_filter::fresh(), done: command_filter::nothing(), left: input }
}

impl Progress {
    /// `n` bytes can come of a read of at most `most`: some, or at the end of
    /// the stream none.
    pub open spec fn reads(self, n: nat, most: int) -> bool {
        n <= most && n <= self.left.len() && (n == 0 ==> self.left.len() == 0)
    }

    /// The turn is what the filter asks for next.
    pub open spec fn allows(self, turn: Turn) -> bool {
        match (command_filter::settled(self.phase), turn) {
            (command_filter::Phase::Head { got }, Turn::Received(n)) => self.reads(
                n,
                command_filter::head_wants(got),
            ),
            (command_filter::Phase::Emit { rest, body }, Turn::Handed(n)) => 0 < n <= rest.len(),
            (command_filter::Phase::Pass { remaining }, Turn::Forwarded(n)) => self.reads(
                n,
                remaining as int,
            ),
            (
                command_filter::Phase::Drain { remaining, then, to_client },
                Turn::Discarded(n),
            ) => self.reads(n, remaining as int),
            (command_filter::Phase::Write { rest }, Turn::Sent(n)) => 0 < n <= rest.len(),
            (command_filter::Phase::Write { rest }, Turn::Flushed) => rest.len() == 0,
            _ => false,
        }
    }

    /// The progress after the turn, as the filter's own methods make it.
    pub open spec fn after(self, allow_change_user: bool, turn: Turn) -> Progress {
        match (command_filter::settled(self.phase), turn) {
            (command_filter::Phase::Head { got }, Turn::Received(n)) => if n == 0 {
                Progress { phase: command_filter::Phase::Eof, ..self }
            } else {
                let now = got + self.left.take(n as int);
                Progress {
                    phase: command_filter::head_phase(allow_change_user, now),
                    done: command_filter::Outcome {
                        reset: self.done.reset || command_filter::head_resets(
                            allow_change_user,
                            now,
                        ),
                        ..self.done
                    },
                    left: self.left.skip(n as int),
                }
            },
            (command_filter::Phase::Emit { rest, body }, Turn::Handed(n)) => Progress {
                phase: command_filter::emit_phase(rest, n as int, body),
                done: command_filter::Outcome {
                    forwarded: self.done.forwarded + rest.take(n as int),
                    ..self.done
                },
                ..self
            },
            (command_filter::Phase::Pass { remaining }, Turn::Forwarded(n)) => if n == 0 {
                Progress { phase: command_filter::Phase::Eof, ..self }
            } else {
                Progress {
                    phase: command_filter::pass_phase((remaining - n) as nat),
                    done: command_filter::Outcome {
                        forwarded: self.done.forwarded + self.left.take(n as int),
                        ..self.done
                    },
                    left: self.left.skip(n as int),
                }
            },
            (
                command_filter::Phase::Drain { remaining, then, to_client },
                Turn::Discarded(n),
            ) => if n == 0 {
                Progress { phase: command_filter::Phase::Eof, ..self }
            } else {
                Progress {
                    phase: command_filter::Phase::Drain {
                        remaining: (remaining - n) as nat,
                        then,
                        to_client,
                    },
                    left: self.left.skip(n as int),
                    ..self
                }
            },
            (command_filter::Phase::Write { rest }, Turn::Sent(n)) => Progress {
                phase: command_filter::Phase::Write { rest: rest.skip(n as int) },
                done: command_filter::Outcome {
                    replied: self.done.replied + rest.take(n as int),
                    ..self.done
                },
                ..self
            },
            (command_filter::Phase::Write { rest }, Turn::Flushed) => Progress {
                phase: command_filter::fresh(),
                ..self
            },
            _ => self,
        }
    }

    /// What was done so far, followed by what is still to come.
    pub open spec fn whole(self, allow_change_user: bool) -> command_filter::Outcome {
        joined(self.done, command_filter::ahead(allow_change_user, self.phase, self.left))
    }
}

proof fn lemma_joined_forward(
    done: command_filter::Outcome,
    bytes: Seq<u8>,
    o: command_filter::Outcome,
)
    ensures
        joined(done, command_filter::forward(bytes, o)) == joined(
            command_filter::Outcome { forwarded: done.forwarded + bytes, ..done },
            o,
        ),
{
    assert(done.forwarded + (bytes + o.forwarded) =~= (done.forwarded + bytes) + o.forwarded);
}

proof fn lemma_joined_reply(
    done: command_filter::Outcome,
    bytes: Seq<u8>,
    o: command_filter::Outcome,
)
    ensures
        joined(done, command_filter::reply(bytes, o)) == joined(
            command_filter::Outcome { replied: done.replied + bytes, ..done },
            o,
        ),
{
    assert(done.replied + (bytes + o.replied) =~= (done.replied + bytes) + o.replied);
}

/// A turn changes nothing of what the whole stream comes to.
pub proof fn law_turn_keeps_the_whole(progress: Progress, allow_change_user: bool, turn: Turn)
    requires
        command_filter::phase_ok(progress.phase),
        progress.allows(turn),
    ensures
        command_filter::phase_ok(progress.after(allow_change_user, turn).phase),
        progress.after(allow_change_user, turn).whole(allow_change_user) == progress.whole(
            allow_change_user,
        ),
{
    let a = allow_change_user;
    let left = progress.left;
    let done = progress.done;
    let p = command_filter::settled(progress.phase);
    let after = progress.after(a, turn);
    command_filter::law_settled(a, progress.phase, left);
    match (p, turn) {
        (command_filter::Phase::Head { got }, Turn::Received(n)) => {
            if n == 0 {
                assert(left =~= Seq::<u8>::empty());
                command_filter::law_end_of_input(a, p);
            } else {
                let bytes = left.take(n as int);
                let rest = left.skip(n as int);
                assert(bytes + rest =~= left);
                command_filter::law_received(a, got, bytes, rest);
            }
        },
        (command_filter::Phase::Emit { rest, body }, Turn::Handed(n)) => {
            command_filter::law_handed(a, rest, n as int, body, left);
            lemma_joined_forward(
                done,
                rest.take(n as int),
                command_filter::ahead(a, after.phase, left),
            );
        },
        (command_filter::Phase::Pass { remaining }, Turn::Forwarded(n)) => {
            if n == 0 {
                assert(left =~= Seq::<u8>::empty());
                command_filter::law_end_of_input(a, p);
            } else {
                let bytes = left.take(n as int);
                let rest = left.skip(n as int);
                assert(bytes + rest =~= left);
                command_filter::law_forwarded(a, remaining, bytes, rest);
                lemma_joined_forward(done, bytes, command_filter::ahead(a, after.phase, rest));
            }
        },
        (
            command_filter::Phase::Drain { remaining, then, to_client },
            Turn::Discarded(n),
        ) => {
            if n == 0 {
                assert(left =~= Seq::<u8>::empty());
                command_filter::law_end_of_input(a, p);
            } else {
                let bytes = left.take(n as int);
                let rest = left.skip(n as int);
                assert(bytes + rest =~= left);
                command_filter::law_discarded(a, remaining, then, to_client, bytes, rest);
            }
        },
        (command_filter::Phase::Write { rest }, Turn::Sent(n)) => {
            command_filter::law_sent(a, rest, n as int, left);
            lemma_joined_reply(
                done,
                rest.take(n as int),
                command_filter::ahead(a, after.phase, left),
            );
        },
        (command_filter::Phase::Write { rest }, Turn::Flushed) => {
            command_filter::law_sent(a, rest, 0, left);
            assert(rest.skip(0) =~= rest);
        },
        _ => {},
    }
}

/// The progress after a series of turns.
pub open spec fn after_all(progress: Progress, allow_change_user: bool, turns: Seq<Turn>) -> Progress
    decreases turns.len(),
{
    if turns.len() == 0 {
        progress
    } else {
        after_all(progress, allow_change_user, turns.drop_last()).after(
            allow_change_user,
            turns.last(),
        )
    }
}

/// Each turn of a series is what the filter asks for when it comes.
pub open spec fn allows_all(progress: Progress, allow_change_user: bool, turns: Seq<Turn>) -> bool
    decreases turns.len(),
{
    turns.len() == 0 || {
        &&& allows_all(progress, allow_change_user, turns.drop_last())
        &&& after_all(progress, allow_change_user, turns.drop_last()).allows(turns.last())
    }
}

/// At every moment of a run, what was handed over and replied so far,
/// followed by what is still to come, is what the whole stream comes to. Once
/// the filter has seen the end, nothing is still to come.
pub proof fn law_run_filters_the_stream(allow_change_user: bool, input: Seq<u8>, turns: Seq<Turn>)
    requires
        allows_all(begun(input), allow_change_user, turns),
    ensures
        ({
            let now = after_all(begun(input), allow_change_user, turns);
            &&& command_filter::phase_ok(now.phase)
            &&& now.whole(allow_change_user) == command_filter::filtered(allow_change_user, input)
            &&& now.phase is Eof ==> now.done == command_filter::filtered(
                allow_change_user,
                input,
            )
        }),
    decreases turns.len(),
{
    let a = allow_change_user;
    let now = after_all(begun(input), a, turns);
    if turns.len() == 0 {
        command_filter::law_new_filter(a, input);
        assert(now.whole(a) =~= command_filter::filtered(a, input));
    } else {
        let before = after_all(begun(input), a, turns.drop_last());
        law_run_filters_the_stream(a, input, turns.drop_last());
        law_turn_keeps_the_whole(before, a, turns.last());
    }
    if now.phase is Eof {
        assert(now.whole(a) =~= now.done);
    }
}

/// A whole packet: a header, and as many bytes as it announces.
pub open spec fn is_packet(p: Seq<u8>) -> bool {
    p.len() >= 4 && p.len() == 4 + command_filter::announced(p)
}

/// What one whole packet comes to. One that starts no command, has no payload
/// or holds a command that the engine handles is forwarded as it is; a
/// housekeeping command becomes a ping; any other is answered with an error.
pub open spec fn packet_outcome(allow_change_user: bool, p: Seq<u8>) -> command_filter::Outcome {
    if command_filter::announced(p) == 0 || p[3] != 0 || command_filter::handled(p[4]) {
        command_filter::forward(p, command_filter::nothing())
    } else if command_filter::answered_like_ping(p[4], allow_change_user) {
        command_filter::reset_if(
            command_filter::resets_session(p[4], allow_change_user),
            command_filter::forward(command_filter::ping_bytes(0), command_filter::nothing()),
        )
    } else {
        command_filter::reply(
            command_filter::unknown_reply(1, p[4]),
            command_filter::nothing(),
        )
    }
}

/// The packets one after another.
pub open spec fn stream_of(packets: Seq<Seq<u8>>) -> Seq<u8>
    decreases packets.len(),
{
    if packets.len() == 0 {
        Seq::empty()
    } else {
        packets[0] + stream_of(packets.skip(1))
    }
}

/// What the packets come to, one after another.
pub open spec fn packets_outcome(
    allow_change_user: bool,
    packets: Seq<Seq<u8>>,
) -> command_filter::Outcome
    decreases packets.len(),
{
    if packets.len() == 0 {
        command_filter::nothing()
    } else {
        joined(
            packet_outcome(allow_change_user, packets[0]),
            packets_outcome(allow_change_user, packets.skip(1)),
        )
    }
}

/// A stream of whole packets is filtered packet by packet.
pub proof fn law_packets_are_filtered_in_turn(allow_change_user: bool, packets: Seq<Seq<u8>>)
    requires
        forall|i: int| 0 <= i < packets.len() ==> is_packet(#[trigger] packets[i]),
    ensures
        command_filter::filtered(allow_change_user, stream_of(packets)) == packets_outcome(
            allow_change_user,
            packets,
        ),
    decreases packets.len(),
{
    let a = allow_change_user;
    if packets.len() > 0 {
        let p = packets[0];
        let rest = stream_of(packets.skip(1));
        let all = p + rest;
        assert forall|i: int| 0 <= i < packets.skip(1).len() implies is_packet(
            #[trigger] packets.skip(1)[i],
        ) by {
            assert(packets.skip(1)[i] == packets[i + 1]);
        }
        law_packets_are_filtered_in_turn(a, packets.skip(1));
        assert(all[0] == p[0] && all[1] == p[1] && all[2] == p[2] && all[3] == p[3]);
        assert(command_filter::announced(all) == command_filter::announced(p));
        assert(all.take(p.len() as int) =~= p);
        assert(all.skip(p.len() as int) =~= rest);
        if command_filter::announced(p) > 0 {
            assert(all[4] == p[4]);
        }
        assert(command_filter::filtered(a, all) =~= packets_outcome(a, packets));
    }
}

/// A filter that has read a stream of whole packets to its end, in whatever
/// pieces, has handed over and replied exactly what the packets come to.
pub proof fn law_run_filters_packet_by_packet(
    allow_change_user: bool,
    packets: Seq<Seq<u8>>,
    turns: Seq<Turn>,
)
    requires
        forall|i: int| 0 <= i < packets.len() ==> is_packet(#[trigger] packets[i]),
        allows_all(begun(stream_of(packets)), allow_change_user, turns),
        after_all(begun(stream_of(packets)), allow_change_user, turns).phase is Eof,
    ensures
        after_all(begun(stream_of(packets)), allow_change_user, turns).done == packets_outcome(
            allow_change_user,
            packets,
        ),
{
    law_run_filters_the_stream(allow_change_user, stream_of(packets), turns);
    law_packets_are_filtered_in_turn(allow_change_user, packets);
}

} // verus!
