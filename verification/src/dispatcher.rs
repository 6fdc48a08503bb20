//! The block dispatcher: one pipeline for each header that the subscription
//! yields, started without waiting for the one before, until the stream
//! fails or closes.

use crate::model::BlockHeader;
use crate::supervisor::SupervisorEvent;
use vstd::prelude::*;

verus! {

/// What the header stream yields.
#[derive(Clone, Copy, Debug, PartialEq, Eq)]
pub enum HeaderItem {
    /// A new head.
    Header(BlockHeader),
    /// The stream gave an error.
    Failed,
    /// The stream ended.
    Closed,
}

/// Whether the dispatcher still takes headers.
#[derive(Clone, Copy, Debug, PartialEq, Eq, Structural)]
pub enum DispatcherState {
    Running,
    /// The stream gave an error; nothing more is dispatched.
    Failed,
    /// The stream ended; nothing more is dispatched.
    Ended,
}

/// What the dispatcher asks of its driver.
#[derive(Clone, Copy, Debug, PartialEq, Eq)]
pub enum DispatchAction {
    /// Start a pipeline of its own for this block and go on to the next
    /// item at once.
    StartPipeline(BlockHeader),
    /// Stop and report the stream's error to the supervisor.
    ReportFailure,
    /// Stop and report the stream's end to the supervisor.
    ReportEnd,
}

/// The step of the dispatcher: a running dispatcher starts a pipeline for a
/// header and stops on anything else; a stopped one stays as it is.
pub open spec fn dispatch_step(state: DispatcherState, item: HeaderItem) -> (
    DispatcherState,
    DispatchAction,
) {
    match state {
        DispatcherState::Running => match item {
            HeaderItem::Header(header) => (
                DispatcherState::Running,
                DispatchAction::StartPipeline(header),
            ),
            HeaderItem::Failed => (DispatcherState::Failed, DispatchAction::ReportFailure),
            HeaderItem::Closed => (DispatcherState::Ended, DispatchAction::ReportEnd),
        },
        DispatcherState::Failed => (DispatcherState::Failed, DispatchAction::ReportFailure),
        DispatcherState::Ended => (DispatcherState::Ended, DispatchAction::ReportEnd),
    }
}

/// What a stopped dispatcher hands to the supervisor.
pub open spec fn report_of(state: DispatcherState) -> Option<SupervisorEvent> {
    match state {
        DispatcherState::Running => None,
        DispatcherState::Failed => Some(SupervisorEvent::StreamFailed),
        DispatcherState::Ended => Some(SupervisorEvent::StreamEnded),
    }
}

/// The state of a dispatcher after a run of items.
pub open spec fn dispatcher_after(state: DispatcherState, items: Seq<HeaderItem>) -> DispatcherState
    decreases items.len(),
{
    if items.len() == 0 {
        state
    } else {
        dispatch_step(dispatcher_after(state, items.drop_last()), items.last()).0
    }
}

/// The blocks for which a dispatcher starts pipelines over a run of items, in
/// order.
pub open spec fn dispatched(state: DispatcherState, items: Seq<HeaderItem>) -> Seq<BlockHeader>
    decreases items.len(),
{
    if items.len() == 0 {
        Seq::empty()
    } else {
        let earlier = dispatched(state, items.drop_last());
        match dispatch_step(dispatcher_after(state, items.drop_last()), items.last()).1 {
            DispatchAction::StartPipeline(header) => earlier.push(header),
            _ => earlier,
        }
    }
}

/// The headers at the front of a run of items, up to the first item that is
/// no header.
pub open spec fn leading_headers(items: Seq<HeaderItem>) -> Seq<BlockHeader>
    decreases items.len(),
{
    if items.len() == 0 {
        Seq::empty()
    } else {
        match items.first() {
            HeaderItem::Header(header) => seq![header] + leading_headers(items.drop_first()),
            _ => Seq::empty(),
        }
    }
}

/// Whether every item is a header.
pub open spec fn all_headers(items: Seq<HeaderItem>) -> bool {
    forall|i: int| 0 <= i < items.len() ==> #[trigger] items[i] is Header
}

/// A stopped dispatcher stays stopped and starts nothing.
pub proof fn lemma_stopped_stays(state: DispatcherState, items: Seq<HeaderItem>)
    requires
        state != DispatcherState::Running,
    ensures
        dispatcher_after(state, items) == state,
        dispatched(state, items) == Seq::<BlockHeader>::empty(),
    decreases items.len(),
{
    if items.len() > 0 {
        lemma_stopped_stays(state, items.drop_last());
    }
}

/// The leading headers of a run with one more item at its end.
proof fn lemma_leading_headers_push(items: Seq<HeaderItem>, item: HeaderItem)
    ensures
        leading_headers(items.push(item)) == if all_headers(items) {
            match item {
                HeaderItem::Header(header) => leading_headers(items).push(header),
                _ => leading_headers(items),
            }
        } else {
            leading_headers(items)
        },
    decreases items.len(),
{
    let longer = items.push(item);
    if items.len() == 0 {
        assert(longer.drop_first() =~= Seq::<HeaderItem>::empty());
        assert(leading_headers(longer.drop_first()) =~= Seq::<BlockHeader>::empty());
        match item {
            HeaderItem::Header(header) => {
                assert(leading_headers(longer) =~= leading_headers(items).push(header));
            },
            _ => {},
        }
    } else {
        assert(longer.first() == items.first());
        assert(longer.drop_first() =~= items.drop_first().push(item));
        lemma_leading_headers_push(items.drop_first(), item);
        match items.first() {
            HeaderItem::Header(first) => {
                if all_headers(items) {
                    assert forall|i: int| 0 <= i < items.drop_first().len() implies
                        #[trigger] items.drop_first()[i] is Header by {
                        assert(items[i + 1] is Header);
                    }
                } else {
                    if all_headers(items.drop_first()) {
                        assert forall|i: int| 0 <= i < items.len() implies
                            #[trigger] items[i] is Header by {
                            if i > 0 {
                                assert(items.drop_first()[i - 1] is Header);
                            }
                        }
                    }
                }
                assert(leading_headers(longer) =~= seq![first] + leading_headers(
                    longer.drop_first(),
                ));
                match item {
                    HeaderItem::Header(header) => {
                        assert((seq![first] + leading_headers(items.drop_first())).push(header)
                            =~= seq![first] + leading_headers(items.drop_first()).push(header));
                    },
                    _ => {},
                }
            },
            _ => {
                assert(!(items[0] is Header));
            },
        }
    }
}

/// A dispatcher that starts running is still running after a run of items
/// exactly when every item was a header.
pub proof fn lemma_running_while_headers(items: Seq<HeaderItem>)
    ensures
        dispatcher_after(DispatcherState::Running, items) == DispatcherState::Running
            <==> all_headers(items),
    decreases items.len(),
{
    if items.len() > 0 {
        lemma_running_while_headers(items.drop_last());
        if all_headers(items) {
            assert forall|i: int| 0 <= i < items.drop_last().len() implies
                #[trigger] items.drop_last()[i] is Header by {
                assert(items[i] is Header);
            }
            assert(items.last() == items[items.len() - 1]);
        } else {
            if all_headers(items.drop_last()) {
                if items.last() is Header {
                    assert forall|i: int| 0 <= i < items.len() implies
                        #[trigger] items[i] is Header by {
                        if i < items.len() - 1 {
                            assert(items.drop_last()[i] is Header);
                        }
                    }
                }
            }
        }
    }
}

/// Over any run of items a dispatcher starts one pipeline for each header
/// that comes before the stream first fails or closes, in order, and none
/// after that.
pub proof fn lemma_one_pipeline_per_header(items: Seq<HeaderItem>)
    ensures
        dispatched(DispatcherState::Running, items) == leading_headers(items),
    decreases items.len(),
{
    if items.len() > 0 {
        let earlier = items.drop_last();
        lemma_one_pipeline_per_header(earlier);
        lemma_running_while_headers(earlier);
        lemma_leading_headers_push(earlier, items.last());
        assert(earlier.push(items.last()) =~= items);
    }
}

/// The dispatcher of one subscription.
#[derive(Clone, Copy, Debug, PartialEq, Eq)]
pub struct Dispatcher {
    state: DispatcherState,
}

impl Dispatcher {
    /// Whether the dispatcher still takes headers.
    pub closed spec fn spec_state(&self) -> DispatcherState {
        self.state
    }

    /// A running dispatcher.
    pub fn new() -> (dispatcher: Self)
        ensures
            dispatcher.spec_state() == DispatcherState::Running,
    {
        Dispatcher { state: DispatcherState::Running }
    }

    /// Takes the next item of the header stream and gives the action for it,
    /// by [`dispatch_step`].
    pub fn on_item(&mut self, item: HeaderItem) -> (action: DispatchAction)
        ensures
            (final(self).spec_state(), action) == dispatch_step(old(self).spec_state(), item),
    {
        match self.state {
            DispatcherState::Running => match item {
                HeaderItem::Header(header) => DispatchAction::StartPipeline(header),
                HeaderItem::Failed => {
                    self.state = DispatcherState::Failed;
                    DispatchAction::ReportFailure
                },
                HeaderItem::Closed => {
                    self.state = DispatcherState::Ended;
                    DispatchAction::ReportEnd
                },
            },
            DispatcherState::Failed => DispatchAction::ReportFailure,
            DispatcherState::Ended => DispatchAction::ReportEnd,
        }
    }

    /// What the dispatcher hands to the supervisor once it has stopped:
    /// nothing while it runs.
    pub fn report(&self) -> (event: Option<SupervisorEvent>)
        ensures
            event == report_of(self.spec_state()),
    {
        match self.state {
            DispatcherState::Running => None,
            DispatcherState::Failed => Some(SupervisorEvent::StreamFailed),
            DispatcherState::Ended => Some(SupervisorEvent::StreamEnded),
        }
    }

    /// Whether the dispatcher still takes headers.
    #[verifier::when_used_as_spec(spec_state)]
    pub fn state(&self) -> (state: DispatcherState)
        ensures
            state == self.spec_state(),
    {
        self.state
    }
}

} // verus!
