//! Monitors that are plugged in and out.

use crate::ipc::messages::{message_views, CompositorMessage, CompositorMessageView};
use crate::output::{output_views, Output, OutputView};
use crate::render::udev::drop_all_surfaces;
use crate::state::BlueState;
use crate::text::{lines, lines_spec};
use vstd::prelude::*;

verus! {

/// What happened to a GPU.
#[derive(Debug, Clone, Copy, PartialEq, Eq, Structural)]
pub enum UdevEvent {
    Added,
    Changed,
    Removed,
}

/// What follows from looking at the connectors again.
#[derive(Debug)]
pub struct Rescan {
    /// What the shell is told.
    pub messages: Vec<CompositorMessage>,
    /// The outputs that left, which go off the screen.
    pub unmapped: Vec<u64>,
    /// The connectors that have a monitor and no output yet.
    pub to_set_up: Vec<String>,
}

/// The characters of each name.
pub open spec fn names_view(names: Seq<String>) -> Seq<Seq<char>> {
    names.map_values(|n: String| n@)
}

/// Tells the names that `known` does not have.
pub open spec fn is_missing_from(known: Seq<Seq<char>>) -> spec_fn(Seq<char>) -> bool {
    |name: Seq<char>| !known.contains(name)
}

/// The messages that tell of each name as connected or not. The size is not known
/// yet.
pub open spec fn output_messages(names: Seq<Seq<char>>, connected: bool) -> Seq<
    CompositorMessageView,
> {
    names.map_values(
        |name: Seq<char>|
            CompositorMessageView::OutputChanged { name, connected, width: 0, height: 0 },
    )
}

/// What the shell is told: first of the outputs that are connected and were not
/// known, then of those that were known and are not connected.
pub open spec fn rescan_messages(current: Seq<Seq<char>>, connected: Seq<Seq<char>>) -> Seq<
    CompositorMessageView,
> {
    output_messages(connected.filter(is_missing_from(current)), true) + output_messages(
        current.filter(is_missing_from(connected)),
        false,
    )
}

/// The names of the outputs.
pub open spec fn output_names(outputs: Seq<OutputView>) -> Seq<Seq<char>> {
    outputs.map_values(|o: OutputView| o.name)
}

/// The identities of the outputs.
pub open spec fn output_ids(outputs: Seq<OutputView>) -> Seq<u64> {
    outputs.map_values(|o: OutputView| o.id)
}

/// Tells the outputs whose connector has a monitor.
pub open spec fn is_plugged_in(connected: Seq<Seq<char>>) -> spec_fn(OutputView) -> bool {
    |o: OutputView| connected.contains(o.name)
}

/// Tells the outputs whose connector has no monitor.
pub open spec fn is_unplugged(connected: Seq<Seq<char>>) -> spec_fn(OutputView) -> bool {
    |o: OutputView| !connected.contains(o.name)
}

/// Tells the lines that hold something.
pub open spec fn is_not_empty() -> spec_fn(Seq<char>) -> bool {
    |line: Seq<char>| line.len() > 0
}

/// The connectors that a listing names, one on each line.
pub open spec fn listed_connectors(listing: Seq<char>) -> Seq<Seq<char>> {
    lines_spec(listing).filter(is_not_empty())
}

/// Whether the outputs have to be looked at again.
pub fn handle_udev_event(event: UdevEvent) -> (rescan: bool)
    ensures
        rescan == (event == UdevEvent::Changed),
        event is Added || event is Removed ==> !rescan,
        event is Changed ==> rescan,
{
    match event {
        UdevEvent::Added => false,
        UdevEvent::Changed => true,
        UdevEvent::Removed => false,
    }
}

/// Whether a name is among `names`.
pub(crate) fn has_name(names: &Vec<String>, name: &String) -> (found: bool)
    ensures
        found == names_view(names@).contains(name@),
{
    for i in 0..names.len()
        invariant
            forall|j: int| 0 <= j < i ==> #[trigger] names_view(names@)[j] != name@,
    {
        if names[i] == *name {
            assert(names_view(names@)[i as int] == name@);
            return true;
        }
    }
    false
}

fn push_missing(
    messages: &mut Vec<CompositorMessage>,
    names: &Vec<String>,
    known: &Vec<String>,
    connected: bool,
)
    ensures
        message_views(final(messages)@) == message_views(old(messages)@) + output_messages(
            names_view(names@).filter(is_missing_from(names_view(known@))),
            connected,
        ),
{
    let ghost before = message_views(messages@);
    let ghost all = names_view(names@);
    let ghost p = is_missing_from(names_view(known@));
    proof {
        reveal(Seq::filter);
        assert(before =~= before + output_messages(all.take(0).filter(p), connected));
    }
    for i in 0..names.len()
        invariant
            all == names_view(names@),
            p == is_missing_from(names_view(known@)),
            message_views(messages@) == before + output_messages(
                all.take(i as int).filter(p),
                connected,
            ),
    {
        proof {
            crate::search::filter_step(all, p, i as int);
        }
        if !has_name(known, &names[i]) {
            let ghost sent = message_views(messages@);
            let ghost told = all.take(i as int).filter(p);
            let name = names[i].clone();
            messages.push(
                CompositorMessage::OutputChanged { name, connected, width: 0, height: 0 },
            );
            let ghost news = CompositorMessageView::OutputChanged {
                name: all[i as int],
                connected,
                width: 0,
                height: 0,
            };
            assert(message_views(messages@) =~= sent.push(news));
            assert(output_messages(told.push(all[i as int]), connected) =~= output_messages(
                told,
                connected,
            ).push(news));
        }
    }
    assert(all.take(all.len() as int) =~= all);
}

/// The names in `names` that `known` does not have.
fn missing_names(names: &Vec<String>, known: &Vec<String>) -> (missing: Vec<String>)
    ensures
        names_view(missing@) == names_view(names@).filter(is_missing_from(names_view(known@))),
{
    let ghost all = names_view(names@);
    let ghost p = is_missing_from(names_view(known@));
    let mut missing: Vec<String> = Vec::new();
    proof {
        reveal(Seq::filter);
        assert(names_view(missing@) =~= all.take(0).filter(p));
    }
    for i in 0..names.len()
        invariant
            all == names_view(names@),
            p == is_missing_from(names_view(known@)),
            names_view(missing@) == all.take(i as int).filter(p),
    {
        proof {
            crate::search::filter_step(all, p, i as int);
        }
        if !has_name(known, &names[i]) {
            let ghost found = names_view(missing@);
            missing.push(names[i].clone());
            assert(names_view(missing@) =~= found.push(all[i as int]));
        }
    }
    assert(all.take(all.len() as int) =~= all);
    missing
}

/// The names of the outputs.
fn names_of(outputs: &Vec<Output>) -> (names: Vec<String>)
    ensures
        names_view(names@) == output_names(output_views(outputs@)),
{
    let mut names: Vec<String> = Vec::new();
    for i in 0..outputs.len()
        invariant
            names@.len() == i,
            forall|j: int| 0 <= j < i ==> #[trigger] names@[j]@ == outputs@[j].name@,
    {
        names.push(outputs[i].name.clone());
    }
    assert(names_view(names@) =~= output_names(output_views(outputs@)));
    names
}

/// Looks again at which connectors have a monitor, and brings the outputs in line: those
/// whose connector has none any more leave, and are drawn no longer. `current_names` are
/// the outputs on screen, `connected` the connectors that have a monitor. Connectors that
/// have a monitor and no output are for a scan to set up.
pub fn rescan_outputs(
    state: &mut BlueState,
    current_names: &Vec<String>,
    connected: &Vec<String>,
) -> (r: Rescan)
    ensures
        message_views(r.messages@) == rescan_messages(
            names_view(current_names@),
            names_view(connected@),
        ),
        r.unmapped@ == output_ids(
            output_views(old(state).outputs@).filter(is_unplugged(names_view(connected@))),
        ),
        names_view(r.to_set_up@) == names_view(connected@).filter(
            is_missing_from(output_names(output_views(old(state).outputs@))),
        ),
        output_views(final(state).outputs@) == output_views(old(state).outputs@).filter(
            is_plugged_in(names_view(connected@)),
        ),
        final(state).backend_data@ == old(state).backend_data@.without_outputs(r.unmapped@),
        *final(state) == (BlueState {
            outputs: final(state).outputs,
            backend_data: final(state).backend_data,
            ..*old(state)
        }),
{
    let mut messages: Vec<CompositorMessage> = Vec::new();
    assert(message_views(messages@) =~= Seq::<CompositorMessageView>::empty());
    push_missing(&mut messages, connected, current_names, true);
    push_missing(&mut messages, current_names, connected, false);
    assert(message_views(messages@) =~= rescan_messages(
        names_view(current_names@),
        names_view(connected@),
    ));
    let known = names_of(&state.outputs);
    let to_set_up = missing_names(connected, &known);
    let unmapped = unplug_outputs(state, connected);
    drop_all_surfaces(&mut state.backend_data, &unmapped);
    Rescan { messages, unmapped, to_set_up }
}

/// Forgets the outputs that are not connected, and tells which they were.
fn unplug_outputs(state: &mut BlueState, connected: &Vec<String>) -> (unmapped: Vec<u64>)
    ensures
        unmapped@ == output_ids(
            output_views(old(state).outputs@).filter(is_unplugged(names_view(connected@))),
        ),
        output_views(final(state).outputs@) == output_views(old(state).outputs@).filter(
            is_plugged_in(names_view(connected@)),
        ),
        *final(state) == (BlueState { outputs: final(state).outputs, ..*old(state) }),
{
    let ghost all = output_views(state.outputs@);
    let ghost stays = is_plugged_in(names_view(connected@));
    let ghost leaves = is_unplugged(names_view(connected@));
    let count: usize = state.outputs.len();
    let mut kept: Vec<Output> = Vec::new();
    let mut unmapped: Vec<u64> = Vec::new();
    proof {
        reveal(Seq::filter);
        assert(output_views(kept@) =~= all.take(0).filter(stays));
        assert(unmapped@ =~= output_ids(all.take(0).filter(leaves)));
    }
    for i in 0..count
        invariant
            stays == is_plugged_in(names_view(connected@)),
            leaves == is_unplugged(names_view(connected@)),
            count == all.len(),
            output_views(state.outputs@) == all.skip(i as int),
            output_views(kept@) == all.take(i as int).filter(stays),
            unmapped@ == output_ids(all.take(i as int).filter(leaves)),
            *state == (BlueState { outputs: state.outputs, ..*old(state) }),
    {
        proof {
            crate::search::filter_step(all, stays, i as int);
            crate::search::filter_step(all, leaves, i as int);
        }
        let ghost views = output_views(state.outputs@);
        let ghost before = output_views(kept@);
        let ghost gone = all.take(i as int).filter(leaves);
        assert(state.outputs@.len() == views.len());
        let output = state.outputs.remove(0);
        assert(output@ == views[0]);
        assert(output_views(state.outputs@) =~= views.drop_first());
        assert(views.drop_first() =~= all.skip(i + 1));
        if has_name(connected, &output.name) {
            kept.push(output);
            assert(output_views(kept@) =~= before.push(all[i as int]));
        } else {
            unmapped.push(output.id);
            assert(output_ids(gone.push(all[i as int])) =~= output_ids(gone).push(
                all[i as int].id,
            ));
        }
    }
    assert(all.take(count as int) =~= all);
    state.outputs = kept;
    unmapped
}

/// Reads the connectors from a listing.
pub fn list_connected_connectors(listing: &str) -> (connectors: Vec<String>)
    ensures
        names_view(connectors@) == listed_connectors(listing@),
{
    let all = lines(listing);
    let ghost p = is_not_empty();
    let ghost views = names_view(all@);
    let mut connectors: Vec<String> = Vec::new();
    proof {
        reveal(Seq::filter);
        assert(names_view(connectors@) =~= views.take(0).filter(p));
    }
    for i in 0..all.len()
        invariant
            views == names_view(all@),
            p == is_not_empty(),
            names_view(connectors@) == views.take(i as int).filter(p),
    {
        proof {
            crate::search::filter_step(views, p, i as int);
        }
        if all[i].as_str().unicode_len() > 0 {
            let ghost found = names_view(connectors@);
            connectors.push(all[i].clone());
            assert(names_view(connectors@) =~= found.push(views[i as int]));
        }
    }
    assert(views.take(views.len() as int) =~= views);
    connectors
}

proof fn nothing_is_missing(names: Seq<Seq<char>>, known: Seq<Seq<char>>)
    requires
        forall|name: Seq<char>| #[trigger] names.contains(name) ==> known.contains(name),
    ensures
        names.filter(is_missing_from(known)) == Seq::<Seq<char>>::empty(),
{
    let missing = names.filter(is_missing_from(known));
    if missing.len() > 0 {
        crate::search::filter_membership(names, is_missing_from(known), missing[0]);
        assert(missing.contains(missing[0]));
    }
    assert(missing =~= Seq::<Seq<char>>::empty());
}

/// Where the outputs are those that are connected, in whatever order, nothing is told,
/// no output leaves, and none has to be set up.
pub proof fn a_settled_desktop_is_silent(outputs: Seq<OutputView>, connected: Seq<Seq<char>>)
    requires
        forall|name: Seq<char>| #[trigger]
            output_names(outputs).contains(name) <==> connected.contains(name),
    ensures
        rescan_messages(output_names(outputs), connected) == Seq::<
            CompositorMessageView,
        >::empty(),
        outputs.filter(is_plugged_in(connected)) == outputs,
        output_ids(outputs.filter(is_unplugged(connected))) == Seq::<u64>::empty(),
        connected.filter(is_missing_from(output_names(outputs))) == Seq::<Seq<char>>::empty(),
{
    let names = output_names(outputs);
    nothing_is_missing(names, connected);
    nothing_is_missing(connected, names);
    assert(rescan_messages(names, connected) =~= Seq::<CompositorMessageView>::empty());
    assert forall|i: int| 0 <= i < outputs.len() implies is_plugged_in(connected)(
        #[trigger] outputs[i],
    ) by {
        assert(names[i] == outputs[i].name);
        assert(names.contains(names[i]));
    }
    crate::search::filter_of_matches(outputs, is_plugged_in(connected));
    let gone = outputs.filter(is_unplugged(connected));
    if gone.len() > 0 {
        crate::search::filter_membership(outputs, is_unplugged(connected), gone[0]);
        assert(gone.contains(gone[0]));
        let i = choose|i: int| 0 <= i < outputs.len() && outputs[i] == gone[0];
        assert(is_plugged_in(connected)(outputs[i]));
    }
    assert(output_ids(gone) =~= Seq::<u64>::empty());
}

/// Once the connectors that were found without an output are set up, the outputs are
/// exactly those that are connected. `added` are the outputs set up after the rescan.
pub proof fn a_rescan_brings_the_outputs_in_line(
    outputs: Seq<OutputView>,
    added: Seq<OutputView>,
    connected: Seq<Seq<char>>,
    name: Seq<char>,
)
    requires
        forall|n: Seq<char>| #[trigger]
            output_names(added).contains(n) <==> connected.filter(
                is_missing_from(output_names(outputs)),
            ).contains(n),
    ensures
        output_names(outputs.filter(is_plugged_in(connected)) + added).contains(name)
            <==> connected.contains(name),
{
    let kept = outputs.filter(is_plugged_in(connected));
    let all = kept + added;
    crate::search::filter_membership(connected, is_missing_from(output_names(outputs)), name);
    if output_names(all).contains(name) {
        let i = choose|i: int| 0 <= i < all.len() && output_names(all)[i] == name;
        if i < kept.len() {
            crate::search::filter_membership(outputs, is_plugged_in(connected), kept[i]);
            assert(kept.contains(kept[i]));
        } else {
            assert(output_names(added)[i - kept.len()] == name);
            assert(output_names(added).contains(name));
        }
    }
    if connected.contains(name) {
        if output_names(outputs).contains(name) {
            let i = choose|i: int| 0 <= i < outputs.len() && output_names(outputs)[i] == name;
            crate::search::filter_membership(outputs, is_plugged_in(connected), outputs[i]);
            assert(outputs.contains(outputs[i]));
            let k = choose|k: int| 0 <= k < kept.len() && kept[k] == outputs[i];
            assert(output_names(all)[k] == name);
        } else {
            assert(output_names(added).contains(name));
            let k = choose|k: int| 0 <= k < added.len() && output_names(added)[k] == name;
            assert(output_names(all)[kept.len() + k] == name);
        }
    }
}

/// A rescan sorts the outputs: each one either stays as it was or is listed as gone.
pub proof fn every_output_stays_or_leaves(
    outputs: Seq<OutputView>,
    connected: Seq<Seq<char>>,
    output: OutputView,
)
    requires
        outputs.contains(output),
    ensures
        outputs.filter(is_plugged_in(connected)).contains(output) <==> connected.contains(
            output.name,
        ),
        outputs.filter(is_unplugged(connected)).contains(output) <==> !connected.contains(
            output.name,
        ),
{
    crate::search::filter_membership(outputs, is_plugged_in(connected), output);
    crate::search::filter_membership(outputs, is_unplugged(connected), output);
}

/// An output is announced as connected exactly if it is connected and was not
/// known, and as gone exactly if it was known and is not connected.
pub proof fn changes_are_announced(
    current: Seq<Seq<char>>,
    connected: Seq<Seq<char>>,
    name: Seq<char>,
    on: bool,
)
    ensures
        rescan_messages(current, connected).contains(
            CompositorMessageView::OutputChanged { name, connected: on, width: 0, height: 0 },
        ) <==> if on {
            connected.contains(name) && !current.contains(name)
        } else {
            current.contains(name) && !connected.contains(name)
        },
{
    let came = connected.filter(is_missing_from(current));
    let went = current.filter(is_missing_from(connected));
    let message = CompositorMessageView::OutputChanged { name, connected: on, width: 0, height: 0 };
    let all = rescan_messages(current, connected);
    crate::search::filter_membership(connected, is_missing_from(current), name);
    crate::search::filter_membership(current, is_missing_from(connected), name);
    if all.contains(message) {
        let i = choose|i: int| 0 <= i < all.len() && all[i] == message;
        if i < came.len() {
            assert(came[i] == name);
        } else {
            assert(went[i - came.len()] == name);
        }
    }
    if on && came.contains(name) {
        let i = choose|i: int| 0 <= i < came.len() && came[i] == name;
        assert(all[i] == message);
    }
    if !on && went.contains(name) {
        let i = choose|i: int| 0 <= i < went.len() && went[i] == name;
        assert(all[came.len() + i] == message);
    }
}

/// The shell is told of the outputs that came before it is told of those that went, of each
/// in the order of its list, and of none with a size.
pub proof fn arrivals_are_told_first(
    current: Seq<Seq<char>>,
    connected: Seq<Seq<char>>,
    i: int,
)
    requires
        0 <= i < rescan_messages(current, connected).len(),
    ensures
        ({
            let came = connected.filter(is_missing_from(current));
            let went = current.filter(is_missing_from(connected));
            &&& rescan_messages(current, connected).len() == came.len() + went.len()
            &&& rescan_messages(current, connected)[i] matches CompositorMessageView::OutputChanged {
                name,
                connected: on,
                width,
                height,
            } && width == 0 && height == 0 && (on <==> i < came.len()) && name == if on {
                came[i]
            } else {
                went[i - came.len()]
            }
        }),
{
}

/// A listing names a connector on each line that holds something, and nowhere else.
pub proof fn listed_connectors_have_names(listing: Seq<char>, name: Seq<char>)
    ensures
        listed_connectors(listing).contains(name) <==> lines_spec(listing).contains(name)
            && name.len() > 0,
{
    crate::search::filter_membership(lines_spec(listing), is_not_empty(), name);
}

/// The names and the identities of outputs are theirs, in order.
pub proof fn outputs_are_listed_in_order(outputs: Seq<OutputView>, i: int)
    requires
        0 <= i < outputs.len(),
    ensures
        output_names(outputs).len() == outputs.len(),
        output_ids(outputs).len() == outputs.len(),
        output_names(outputs)[i] == outputs[i].name,
        output_ids(outputs)[i] == outputs[i].id,
{
}

/// A connector has to be set up exactly if it is connected and no output has its name.
pub proof fn new_connectors_are_set_up(
    outputs: Seq<OutputView>,
    connected: Seq<Seq<char>>,
    name: Seq<char>,
)
    ensures
        connected.filter(is_missing_from(output_names(outputs))).contains(name)
            <==> connected.contains(name) && forall|i: int|
            0 <= i < outputs.len() ==> (#[trigger] outputs[i]).name != name,
{
    let names = output_names(outputs);
    crate::search::filter_membership(connected, is_missing_from(names), name);
    if names.contains(name) {
        let i = choose|i: int| 0 <= i < names.len() && names[i] == name;
        assert(outputs[i].name == name);
    }
    if exists|i: int| 0 <= i < outputs.len() && (#[trigger] outputs[i]).name == name {
        let i = choose|i: int| 0 <= i < outputs.len() && (#[trigger] outputs[i]).name == name;
        assert(names[i] == name);
    }
}

/// Names are viewed one by one, in order.
pub proof fn names_are_viewed_in_order(names: Seq<String>, i: int)
    ensures
        names_view(names).len() == names.len(),
        0 <= i < names.len() ==> names_view(names)[i] == names[i]@,
{
}

} // verus!
