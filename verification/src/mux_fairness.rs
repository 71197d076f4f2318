//! How the channels of a multiplexer share what is sent.

use vstd::prelude::*;
use crate::mux_model::{ChannelView, EnvelopeView, FrameView, MuxView, cost, lemma_cost, lemma_served};

verus! {

/// What a payload counts for: its bytes, and one if it has none.
pub open spec fn counted(payload_len: nat) -> nat {
    if payload_len >= 1 {
        payload_len
    } else {
        1
    }
}

/// The share of a channel goes up by one with each 32 hints, from one to eight. A payload
/// costs eight for each byte, divided by the share and rounded up.
pub proof fn payloads_cost_their_length_by_the_share(payload_len: nat, priority_hint: u8)
    ensures
        (priority_hint as int / 32 + 1) * cost(payload_len, priority_hint) >= 8 * counted(payload_len),
        (priority_hint as int / 32 + 1) * (cost(payload_len, priority_hint) - 1) < 8 * counted(
            payload_len,
        ),
{
    let w = priority_hint as int / 32 + 1;
    let b = counted(payload_len) as int;
    let n = b * 8 + w - 1;
    let c = n / w;
    assert(c == cost(payload_len, priority_hint));
    vstd::arithmetic::div_mod::lemma_fundamental_div_mod(n, w);
    vstd::arithmetic::div_mod::lemma_mod_bound(n, w);
    assert(w * (c - 1) == w * c - w) by (nonlinear_arith);
}

/// The same payload never costs a channel with a higher hint more than one with a lower
/// hint, and costs it less where the hints are of different bands and the payload has seven
/// bytes or more.
pub proof fn higher_hints_pay_less(payload_len: nat, a: u8, b: u8)
    requires
        a <= b,
    ensures
        cost(payload_len, b) <= cost(payload_len, a),
        a as int / 32 < b as int / 32 && payload_len >= 7 ==> cost(payload_len, b) < cost(payload_len, a),
        a as int / 32 == b as int / 32 ==> cost(payload_len, b) == cost(payload_len, a),
{
    payloads_cost_their_length_by_the_share(payload_len, a);
    payloads_cost_their_length_by_the_share(payload_len, b);
    lemma_cost(payload_len, a);
    lemma_cost(payload_len, b);
    let wa = a as int / 32 + 1;
    let wb = b as int / 32 + 1;
    let ca = cost(payload_len, a);
    let cb = cost(payload_len, b);
    let n = 8 * counted(payload_len) as int;
    assert(1 <= wa <= wb <= 8);
    assert(cb <= ca) by (nonlinear_arith)
        requires
            1 <= wa <= wb,
            wa * ca >= n,
            wb * (cb - 1) < n,
            1 <= ca,
    ;
    if wa < wb && payload_len >= 7 {
        assert(cb < ca) by (nonlinear_arith)
            requires
                1 <= wa < wb <= 8,
                wa * ca >= n,
                wb * (cb - 1) < n,
                cb <= ca,
                n >= 56,
        ;
    }
}

/// The longer of two payloads never costs a channel less.
pub proof fn longer_payloads_cost_no_less(short: nat, long: nat, priority_hint: u8)
    requires
        short <= long,
    ensures
        cost(short, priority_hint) <= cost(long, priority_hint),
{
    payloads_cost_their_length_by_the_share(short, priority_hint);
    payloads_cost_their_length_by_the_share(long, priority_hint);
    let w = priority_hint as int / 32 + 1;
    let cs = cost(short, priority_hint);
    let cl = cost(long, priority_hint);
    assert(cs <= cl) by (nonlinear_arith)
        requires
            1 <= w,
            w * (cs - 1) < w * cl,
    ;
}

/// Whether one multiplexer comes of another by sending a frame or by taking one.
pub open spec fn steps_to(m: MuxView, sent: Option<FrameView>, after: MuxView) -> bool {
    if sent is Some {
        m.sends(sent, after)
    } else {
        exists|e: EnvelopeView| #[trigger] m.data_fault(e) is None && after == m.with_frame(e)
    }
}

/// The bytes of a channel among what was sent.
pub open spec fn bytes_sent(sent: Seq<Option<FrameView>>, id: u32) -> nat
    decreases sent.len(),
{
    if sent.len() == 0 {
        0
    } else {
        bytes_sent(sent.drop_last(), id) + match sent.last() {
            Some(FrameView::Data(e)) => if e.channel.id == id {
                counted(e.payload.len())
            } else {
                0
            },
            _ => 0,
        }
    }
}

/// The frames of a channel among what was sent.
pub open spec fn frames_sent(sent: Seq<Option<FrameView>>, id: u32) -> nat
    decreases sent.len(),
{
    if sent.len() == 0 {
        0
    } else {
        frames_sent(sent.drop_last(), id) + match sent.last() {
            Some(FrameView::Data(e)) => if e.channel.id == id {
                1
            } else {
                0
            },
            _ => 0nat,
        }
    }
}

/// Whether a row of multiplexers is a stretch of sending and taking frames, in which two
/// channels always have frames.
pub open spec fn busy_stretch(
    stretch: Seq<MuxView>,
    sent: Seq<Option<FrameView>>,
    x: u32,
    y: u32,
) -> bool {
    &&& stretch.len() == sent.len() + 1
    &&& forall|i: int| 0 <= i < stretch.len() ==> (#[trigger] stretch[i]).wf()
    &&& forall|i: int|
        #![trigger sent[i]]
        0 <= i < sent.len() ==> {
            &&& steps_to(stretch[i], sent[i], stretch[i + 1])
            &&& stretch[i].ready.contains(x)
            &&& stretch[i].ready.contains(y)
        }
}

/// How one step moves a channel that has frames.
proof fn lemma_step(m: MuxView, sent: Option<FrameView>, after: MuxView, x: u32, y: u32)
    requires
        m.wf(),
        steps_to(m, sent, after),
        m.ready.contains(x),
        m.ready.contains(y),
        x != y,
        after.channels[x].virtual_finish < u128::MAX,
    ensures
        ({
            let w = m.channels[x].config.priority_hint as int / 32 + 1;
            let before = m.channels[x].virtual_finish as int;
            let moved = after.channels[x].virtual_finish as int;
            let mine = sent matches Some(FrameView::Data(e)) && e.channel.id == x;
            let bytes = counted(sent->0->Data_0.payload.len()) as int;
            &&& m.channels.contains_key(x)
            &&& after.channels[x].config == m.channels[x].config
            &&& after.limits == m.limits
            &&& before <= moved
            &&& !mine ==> moved == before
            &&& mine ==> {
                &&& 8 * bytes <= w * (moved - before) <= 8 * bytes + w - 1
                &&& bytes <= m.limits.max_frame_bytes
                &&& before <= m.channels[y].virtual_finish
            }
        }),
{
    assert(m.channels.contains_key(x) && m.channels[x].queue.len() > 0);
    assert(m.channels.contains_key(y) && m.channels[y].queue.len() > 0);
    if sent is None {
        let e = choose|e: EnvelopeView| #[trigger] m.data_fault(e) is None && after == m.with_frame(e);
        assert(m.data_fault(e) is None && after == m.with_frame(e));
    } else if m.control.len() == 0 {
        assert(m.ready.len() > 0);
        let i = choose|i: int| #[trigger]
            m.is_turn(i) && sent == Some(FrameView::Data(m.channels[m.ready[i]].queue[0])) && after
                == m.served(i);
        lemma_served(m, i);
        let id = m.ready[i];
        let state = m.channels[id];
        assert(m.channel_wf(id));
        let e = state.queue[0];
        assert(e.channel.id == id);
        if id == x {
            let jy = m.ready.index_of(y);
            assert(m.ready[jy] == y);
            assert(state.virtual_finish <= m.channels[y].virtual_finish);
            assert(m.channels[m.ready[i]].virtual_finish >= m.virtual_time);
            payloads_cost_their_length_by_the_share(e.payload.len(), state.config.priority_hint);
            lemma_cost(e.payload.len(), state.config.priority_hint);
            let c = cost(e.payload.len(), state.config.priority_hint);
            let w = state.config.priority_hint as int / 32 + 1;
            assert(after.channels[x].virtual_finish == state.virtual_finish + c);
            assert(w * (c - 1) == w * c - w) by (nonlinear_arith);
        }
    }
}

/// What a stretch leaves between the virtual finish times of two channels that had frames
/// all along, and how far it moved the first of them.
proof fn lemma_stretch(stretch: Seq<MuxView>, sent: Seq<Option<FrameView>>, x: u32, y: u32)
    requires
        busy_stretch(stretch, sent, x, y),
        x != y,
        stretch[0].channels[x].virtual_finish == stretch[0].channels[y].virtual_finish,
        stretch.last().channels[x].virtual_finish < u128::MAX,
        stretch.last().channels[y].virtual_finish < u128::MAX,
    ensures
        ({
            let wx = stretch[0].channels[x].config.priority_hint as int / 32 + 1;
            let from = stretch[0].channels[x].virtual_finish as int;
            let fx = stretch.last().channels[x].virtual_finish as int;
            let fy = stretch.last().channels[y].virtual_finish as int;
            let bytes = bytes_sent(sent, x) as int;
            let frames = frames_sent(sent, x) as int;
            &&& stretch.last().channels[x].config == stretch[0].channels[x].config
            &&& stretch.last().limits == stretch[0].limits
            &&& from <= fx
            &&& from <= fy
            &&& 8 * bytes <= wx * (fx - from) <= 8 * bytes + (wx - 1) * frames
            &&& wx * (fx - fy) <= 8 * stretch[0].limits.max_frame_bytes + wx - 1
        }),
    decreases sent.len(),
{
    let wx = stretch[0].channels[x].config.priority_hint as int / 32 + 1;
    let from = stretch[0].channels[x].virtual_finish as int;
    if sent.len() == 0 {
        assert(wx * 0 == 0) by (nonlinear_arith);
        assert((wx - 1) * 0 == 0) by (nonlinear_arith);
    } else {
        let n = sent.len() - 1;
        let front = stretch.drop_last();
        let told = sent.drop_last();
        let m = stretch[n];
        let after = stretch[n + 1];
        assert(sent[n] == sent.last());
        assert(steps_to(m, sent[n], after));
        assert(stretch.last() == after);
        assert(front.last() == m);
        assert forall|i: int| 0 <= i < front.len() implies (#[trigger] front[i]).wf() by {
            assert(front[i] == stretch[i]);
        }
        assert forall|i: int| #![trigger told[i]] 0 <= i < told.len() implies {
            &&& steps_to(front[i], told[i], front[i + 1])
            &&& front[i].ready.contains(x)
            &&& front[i].ready.contains(y)
        } by {
            assert(told[i] == sent[i]);
            assert(front[i] == stretch[i] && front[i + 1] == stretch[i + 1]);
        }
        assert(m.wf());
        lemma_step(m, sent[n], after, x, y);
        lemma_step(m, sent[n], after, y, x);
        lemma_stretch(front, told, x, y);
        let f = m.channels[x].virtual_finish as int;
        let fx = after.channels[x].virtual_finish as int;
        let g = m.channels[y].virtual_finish as int;
        let fy = after.channels[y].virtual_finish as int;
        let frames = frames_sent(told, x) as int;
        let top = stretch[0].limits.max_frame_bytes as int;
        assert(1 <= wx <= 8);
        assert(wx * (fx - from) == wx * (fx - f) + wx * (f - from)) by (nonlinear_arith);
        assert((wx - 1) * (frames + 1) == (wx - 1) * frames + (wx - 1)) by (nonlinear_arith);
        if sent[n] matches Some(FrameView::Data(e)) && e.channel.id == x {
            assert(fy == g);
            assert(wx * (fx - fy) <= wx * (fx - f)) by (nonlinear_arith)
                requires
                    f <= fy,
                    1 <= wx,
            ;
        } else {
            assert(fx == f);
            assert(wx * 0 == 0) by (nonlinear_arith);
            assert(wx * (fx - fy) <= wx * (f - g)) by (nonlinear_arith)
                requires
                    fx == f,
                    g <= fy,
                    1 <= wx,
            ;
        }
    }
}

/// Two channels that have frames all along, and begin side by side, are sent bytes in the
/// ratio of their shares, which are a / 32 + 1 and b / 32 + 1 for the hints a and b: up to
/// one frame, and to what is rounded up with each frame. (Virtual time that has reached its
/// end is left out.)
pub proof fn busy_channels_are_sent_bytes_by_their_share(
    stretch: Seq<MuxView>,
    sent: Seq<Option<FrameView>>,
    x: u32,
    y: u32,
)
    requires
        busy_stretch(stretch, sent, x, y),
        x != y,
        stretch[0].channels[x].virtual_finish == stretch[0].channels[y].virtual_finish,
        stretch.last().channels[x].virtual_finish < u128::MAX,
        stretch.last().channels[y].virtual_finish < u128::MAX,
    ensures
        ({
            let a = stretch[0].channels[x].config.priority_hint as int / 32 + 1;
            let b = stretch[0].channels[y].config.priority_hint as int / 32 + 1;
            let longest = stretch[0].limits.max_frame_bytes as int;
            8 * (b * bytes_sent(sent, x)) <= 8 * (a * bytes_sent(sent, y)) + a * ((b - 1) * frames_sent(
                sent,
                y,
            )) + b * (8 * longest + a - 1)
        }),
{
    lemma_stretch(stretch, sent, x, y);
    lemma_stretch(stretch, sent, y, x);
    let a = stretch[0].channels[x].config.priority_hint as int / 32 + 1;
    let b = stretch[0].channels[y].config.priority_hint as int / 32 + 1;
    let from = stretch[0].channels[x].virtual_finish as int;
    let fx = stretch.last().channels[x].virtual_finish as int;
    let fy = stretch.last().channels[y].virtual_finish as int;
    let bx = bytes_sent(sent, x) as int;
    let by = bytes_sent(sent, y) as int;
    let ny = (b - 1) * frames_sent(sent, y) as int;
    let top = 8 * stretch[0].limits.max_frame_bytes as int + a - 1;
    lemma_shares(a, b, bx, by, fx - from, fy - from, ny, top);
}

proof fn lemma_shares(a: int, b: int, bx: int, by: int, fx: int, fy: int, ny: int, top: int)
    requires
        1 <= a,
        1 <= b,
        8 * bx <= a * fx,
        b * fy <= 8 * by + ny,
        a * (fx - fy) <= top,
    ensures
        8 * (b * bx) <= 8 * (a * by) + a * ny + b * top,
{
    assert(b * (8 * bx) <= b * (a * fx)) by (nonlinear_arith)
        requires
            1 <= b,
            8 * bx <= a * fx,
    ;
    assert(b * (a * (fx - fy)) <= b * top) by (nonlinear_arith)
        requires
            1 <= b,
            a * (fx - fy) <= top,
    ;
    assert(a * (b * fy) <= a * (8 * by + ny)) by (nonlinear_arith)
        requires
            1 <= a,
            b * fy <= 8 * by + ny,
    ;
    assert(b * (a * fx) == b * (a * (fx - fy)) + a * (b * fy)) by (nonlinear_arith);
    assert(b * (8 * bx) == 8 * (b * bx)) by (nonlinear_arith);
    assert(a * (8 * by + ny) == 8 * (a * by) + a * ny) by (nonlinear_arith);
}

/// A channel that has waited for frames has earned nothing by that: with its first frame it
/// begins where the others are, or where it had come to itself, whichever is later.
pub proof fn idle_channels_earn_nothing(m: MuxView, e: EnvelopeView)
    requires
        m.channels.contains_key(e.channel.id),
        m.channels[e.channel.id].queue.len() == 0,
    ensures
        ({
            let had: ChannelView = m.channels[e.channel.id];
            let has: ChannelView = m.with_frame(e).channels[e.channel.id];
            &&& has.virtual_finish >= m.virtual_time
            &&& has.virtual_finish >= had.virtual_finish
            &&& has.virtual_finish == m.virtual_time || has.virtual_finish == had.virtual_finish
            &&& has.queue == seq![e]
            &&& m.with_frame(e).ready == m.ready.push(e.channel.id)
        }),
{
    assert(m.channels[e.channel.id].queue.push(e) =~= seq![e]);
}

} // verus!
