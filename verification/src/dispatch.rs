//! The loop that takes requests and sends replies.
//!
//! Waiting, running and sending take place elsewhere. The loop is told what came
//! about and says what to do; a run that has ended comes back with its own
//! request. Runs overlap, so that they may end in any order.
use crate::json::{entries, Json};
use crate::reply::Reply;
use crate::request::{delivered, RouteRequest};
use crate::run::{whole_run, Behaviour, OutcomeView};
use vstd::prelude::*;

verus! {

/// What comes about in the loop.
#[verifier::reject_recursive_types(C)]
pub enum LoopEvent<C> {
    /// A request came in.
    Received(RouteRequest<C>),
    /// No more requests can come in.
    Closed,
    /// The run of a request ended with a reply.
    Ended(RouteRequest<C>, Reply),
}

/// What the loop has done next.
#[verifier::reject_recursive_types(C)]
pub enum LoopAction<C> {
    /// Run the request, and wait for the next without waiting for the run.
    Run(RouteRequest<C>),
    /// Send the reply on the channel.
    Send(C, Reply),
    Nothing,
    /// Leave the loop.
    Stop,
}

/// What an event in the loop leads to.
pub open spec fn action_of<C>(event: LoopEvent<C>) -> LoopAction<C> {
    match event {
        LoopEvent::Received(request) => LoopAction::Run(request),
        LoopEvent::Closed => LoopAction::Stop,
        LoopEvent::Ended(request, reply) => match delivered(request, reply) {
            Some((channel, message)) => LoopAction::Send(channel, message),
            None => LoopAction::Nothing,
        },
    }
}

/// What an event in the loop leads to: a request is run, and the reply of a run is
/// sent where the request has a channel.
pub fn run_loop<C>(event: LoopEvent<C>) -> (r: LoopAction<C>)
    ensures
        r == action_of(event),
{
    match event {
        LoopEvent::Received(request) => LoopAction::Run(request),
        LoopEvent::Closed => LoopAction::Stop,
        LoopEvent::Ended(request, reply) => match request.deliver(reply) {
            Some((channel, message)) => LoopAction::Send(channel, message),
            None => LoopAction::Nothing,
        },
    }
}

/// The requests that came in, in their order.
pub open spec fn received<C>(events: Seq<LoopEvent<C>>) -> Seq<RouteRequest<C>>
    decreases events.len(),
{
    if events.len() == 0 {
        Seq::empty()
    } else {
        match events.last() {
            LoopEvent::Received(request) => received(events.drop_last()).push(request),
            _ => received(events.drop_last()),
        }
    }
}

/// The runs that ended, in the order in which they did.
pub open spec fn ended<C>(events: Seq<LoopEvent<C>>) -> Seq<(RouteRequest<C>, Reply)>
    decreases events.len(),
{
    if events.len() == 0 {
        Seq::empty()
    } else {
        match events.last() {
            LoopEvent::Ended(request, reply) => ended(events.drop_last()).push((request, reply)),
            _ => ended(events.drop_last()),
        }
    }
}

/// The requests that the loop has run, in their order.
pub open spec fn runs<C>(events: Seq<LoopEvent<C>>) -> Seq<RouteRequest<C>>
    decreases events.len(),
{
    if events.len() == 0 {
        Seq::empty()
    } else {
        match action_of(events.last()) {
            LoopAction::Run(request) => runs(events.drop_last()).push(request),
            _ => runs(events.drop_last()),
        }
    }
}

/// The messages that the loop has sent, in their order.
pub open spec fn messages<C>(events: Seq<LoopEvent<C>>) -> Seq<(C, Reply)>
    decreases events.len(),
{
    if events.len() == 0 {
        Seq::empty()
    } else {
        match action_of(events.last()) {
            LoopAction::Send(channel, reply) => messages(events.drop_last()).push((channel, reply)),
            _ => messages(events.drop_last()),
        }
    }
}

/// The messages on one channel.
pub open spec fn messages_on<C>(sent: Seq<(C, Reply)>, channel: C) -> Seq<(C, Reply)> {
    sent.filter(|message: (C, Reply)| message.0 == channel)
}

/// Whether no two requests have the same channel.
pub open spec fn own_channels<C>(requests: Seq<RouteRequest<C>>) -> bool {
    forall|i: int, j: int|
        0 <= i < j < requests.len() && (#[trigger] requests[i]).response_channel is Some
            ==> requests[i].response_channel != (#[trigger] requests[j]).response_channel
}

/// Whether the run of each request that came in ended once, the run of the request
/// `i` with the reply `replies[i]`; `order` says whose run ended first, second and
/// so on.
pub open spec fn all_ended<C>(
    events: Seq<LoopEvent<C>>,
    replies: Seq<Reply>,
    order: Seq<int>,
) -> bool {
    &&& replies.len() == received(events).len()
    &&& order.len() == received(events).len()
    &&& order.no_duplicates()
    &&& forall|k: int| 0 <= k < order.len() ==> 0 <= #[trigger] order[k] < replies.len()
    &&& ended(events).len() == order.len()
    &&& forall|k: int|
        0 <= k < order.len() ==> #[trigger] ended(events)[k] == (
            received(events)[order[k]],
            replies[order[k]],
        )
}

/// Every request that comes in is run once, in the order of coming in, whether or
/// not somebody waits for its reply.
pub proof fn law_every_request_is_run<C>(events: Seq<LoopEvent<C>>)
    ensures
        runs(events) == received(events),
    decreases events.len(),
{
    if events.len() > 0 {
        law_every_request_is_run(events.drop_last());
    }
}

/// The messages on a channel that one ended run has, at place `k`, are the reply
/// of that run alone; on a channel that none has there is no message.
proof fn lemma_messages_on<C>(events: Seq<LoopEvent<C>>, channel: C, k: int)
    requires
        forall|j: int|
            0 <= j < ended(events).len() && j != k ==> (#[trigger] ended(
                events,
            )[j]).0.response_channel != Some(channel),
        0 <= k < ended(events).len() ==> ended(events)[k].0.response_channel == Some(channel),
    ensures
        messages_on(messages(events), channel) == if 0 <= k < ended(events).len() {
            seq![(channel, ended(events)[k].1)]
        } else {
            Seq::empty()
        },
    decreases events.len(),
{
    reveal(Seq::filter);
    if events.len() > 0 {
        let rest = events.drop_last();
        let before = ended(rest);
        let all = ended(events);
        assert(forall|j: int| 0 <= j < before.len() ==> all[j] == #[trigger] before[j]);
        lemma_messages_on(rest, channel, k);
        match events.last() {
            LoopEvent::Ended(request, reply) => {
                assert(all[before.len() as int] == (request, reply));
                if request.response_channel is Some {
                    let sent = messages(rest).push((request.response_channel->0, reply));
                    assert(sent.drop_last() =~= messages(rest));
                }
            },
            _ => {},
        }
    }
}

/// Every message is the reply of an ended run, on the channel of its request.
proof fn lemma_message_has_its_run<C>(events: Seq<LoopEvent<C>>, m: int) -> (k: int)
    requires
        0 <= m < messages(events).len(),
    ensures
        0 <= k < ended(events).len(),
        delivered(ended(events)[k].0, ended(events)[k].1) == Some(messages(events)[m]),
    decreases events.len(),
{
    let rest = events.drop_last();
    if m < messages(rest).len() {
        lemma_message_has_its_run(rest, m)
    } else {
        ended(rest).len() as int
    }
}

/// Some place holds the index: as many different indices as there are leave none
/// out.
proof fn lemma_order_is_complete(order: Seq<int>, i: int) -> (k: int)
    requires
        order.no_duplicates(),
        forall|k: int| 0 <= k < order.len() ==> 0 <= #[trigger] order[k] < order.len(),
        0 <= i < order.len(),
    ensures
        0 <= k < order.len(),
        order[k] == i,
{
    let indices = vstd::set_lib::set_int_range(0, order.len() as int);
    vstd::set_lib::lemma_int_range(0, order.len() as int);
    order.unique_seq_to_set();
    assert(order.to_set().subset_of(indices));
    vstd::set_lib::lemma_subset_equality(order.to_set(), indices);
    assert(order.to_set().contains(i));
    choose|k: int| 0 <= k < order.len() && order[k] == i
}

/// Where the run of every request has ended, whichever came first, a request with
/// a channel of its own gets one message on it, which is the reply of its own run.
pub proof fn law_each_request_gets_its_own_reply<C>(
    events: Seq<LoopEvent<C>>,
    replies: Seq<Reply>,
    order: Seq<int>,
    i: int,
    channel: C,
)
    requires
        own_channels(received(events)),
        all_ended(events, replies, order),
        0 <= i < received(events).len(),
        received(events)[i].response_channel == Some(channel),
    ensures
        messages_on(messages(events), channel) == seq![(channel, replies[i])],
{
    let k = lemma_order_is_complete(order, i);
    assert(ended(events)[k] == (received(events)[i], replies[i]));
    assert forall|j: int| 0 <= j < ended(events).len() && j != k implies (#[trigger] ended(
        events,
    )[j]).0.response_channel != Some(channel) by {
        assert(order[j] != order[k]);
        assert(received(events)[order[j]].response_channel != received(events)[i].response_channel);
    }
    lemma_messages_on(events, channel, k);
}

/// What a request gets on its channel is what its handler makes of it, whatever
/// other requests are under way.
pub proof fn law_each_request_gets_what_its_handler_makes<F, C>(
    routes: Map<Seq<char>, F>,
    behaviour: Behaviour,
    cache: Json,
    events: Seq<LoopEvent<C>>,
    replies: Seq<Reply>,
    order: Seq<int>,
    i: int,
    channel: C,
)
    requires
        own_channels(received(events)),
        all_ended(events, replies, order),
        0 <= i < received(events).len(),
        received(events)[i].response_channel == Some(channel),
        whole_run(
            routes,
            received(events)[i].route_name@,
            entries(received(events)[i].route_args),
            behaviour,
            cache,
        ).0 == OutcomeView::Respond(replies[i]@),
    ensures
        messages_on(messages(events), channel).len() == 1,
        OutcomeView::Respond(messages_on(messages(events), channel)[0].1@) == whole_run(
            routes,
            received(events)[i].route_name@,
            entries(received(events)[i].route_args),
            behaviour,
            cache,
        ).0,
{
    law_each_request_gets_its_own_reply(events, replies, order, i, channel);
}

/// Nothing else is sent: every message is the reply of the run of a request that
/// came in, on the channel of that request. A request without a channel has none.
pub proof fn law_nothing_is_sent_without_a_channel<C>(
    events: Seq<LoopEvent<C>>,
    replies: Seq<Reply>,
    order: Seq<int>,
    m: int,
)
    requires
        all_ended(events, replies, order),
        0 <= m < messages(events).len(),
    ensures
        exists|i: int|
            0 <= i < received(events).len() && (#[trigger] received(events)[i]).response_channel
                == Some(messages(events)[m].0) && replies[i] == messages(events)[m].1,
{
    let k = lemma_message_has_its_run(events, m);
    let i = order[k];
    assert(ended(events)[k] == (received(events)[i], replies[i]));
}

/// A request that comes in is run as it is. The reply of a run goes to the channel
/// of its own request, unchanged, and nowhere where there is none. The loop is left
/// when no more requests can come in.
pub proof fn law_loop_does_what_came_about<C>(
    request: RouteRequest<C>,
    reply: Reply,
    on_request: LoopAction<C>,
    on_end: LoopAction<C>,
    on_close: LoopAction<C>,
)
    requires
        call_ensures(run_loop::<C>, (LoopEvent::Received(request),), on_request),
        call_ensures(run_loop::<C>, (LoopEvent::Ended(request, reply),), on_end),
        call_ensures(run_loop::<C>, (LoopEvent::Closed,), on_close),
    ensures
        on_request == LoopAction::Run(request),
        request.response_channel matches Some(channel) ==> on_end == LoopAction::Send(
            channel,
            reply,
        ),
        request.response_channel is None ==> on_end is Nothing,
        on_close is Stop,
{
}

} // verus!
