//! The socket that shell clients connect to: who is connected, what was read,
//! and what is sent to everyone.

use crate::ipc::messages::{CompositorMessage, CompositorMessageView, WindowInfo};
use crate::text::{decimal, decimal_text, join_path, path_join, trim, trimmed};
use vstd::prelude::*;

verus! {

/// Milliseconds between two looks at what the clients have sent.
pub const POLL_INTERVAL_MS: u64 = 33;

/// What came of accepting a connection.
#[derive(Debug, Clone, Copy, PartialEq, Eq, Structural)]
pub enum AcceptOutcome {
    Accepted { client: u64 },
    WouldBlock,
    Failed,
}

/// What follows an attempt to accept a connection.
#[derive(Debug, Clone, PartialEq, Eq)]
pub struct AcceptStep {
    /// Sent to the new client alone, whether or not that succeeds.
    pub greeting: Option<CompositorMessage>,
    /// Accept once more.
    pub again: bool,
}

/// What came of reading from a client.
#[derive(Debug, Clone, PartialEq, Eq)]
pub enum ReadOutcome {
    /// The stream could not be cloned for reading.
    CloneFailed,
    /// The client has closed its end.
    Closed,
    Line { text: String },
    WouldBlock,
    Failed,
}

/// One pass over the clients: which one is read, which ones are gone, and the
/// texts that have come in.
#[derive(Debug)]
pub struct PollRound {
    /// The place of the client that is read now.
    pub client: usize,
    pub to_remove: Vec<usize>,
    pub texts: Vec<String>,
}

/// The path of the socket: in the runtime directory of the user, which is named
/// after the user where it is not known.
pub open spec fn socket_path(runtime_dir: Option<Seq<char>>, uid: u32) -> Seq<char> {
    let base = match runtime_dir {
        Some(dir) => dir,
        None => "/run/user/"@ + decimal(uid as nat),
    };
    path_join(base, "blue-compositor.sock"@)
}

/// Whether a client is gone after `outcome`.
pub open spec fn is_gone(outcome: ReadOutcome) -> bool {
    outcome is CloneFailed || outcome is Closed || outcome is Failed
}

/// What a line adds to the texts that came in: itself without the white space
/// around it, unless that leaves nothing.
pub open spec fn received(outcome: ReadOutcome) -> Seq<Seq<char>> {
    match outcome {
        ReadOutcome::Line { text } => if trimmed(text@).len() == 0 {
            Seq::empty()
        } else {
            seq![trimmed(text@)]
        },
        _ => Seq::empty(),
    }
}

/// The characters of each text.
pub open spec fn texts_view(texts: Seq<String>) -> Seq<Seq<char>> {
    texts.map_values(|t: String| t@)
}

/// `clients` after the one at `i` has left and the last one has taken its place.
pub open spec fn swap_removed(clients: Seq<u64>, i: int) -> Seq<u64> {
    clients.update(i, clients.last()).drop_last()
}

/// `clients` after those at the places `gone` have left, from the last of these
/// places to the first.
pub open spec fn without(clients: Seq<u64>, gone: Seq<usize>) -> Seq<u64>
    decreases gone.len(),
{
    if gone.len() == 0 {
        clients
    } else {
        without(swap_removed(clients, gone.last() as int), gone.drop_last())
    }
}

/// Whether `places` are rising and all below `end`.
pub open spec fn are_rising_places(places: Seq<usize>, end: int) -> bool {
    &&& forall|i: int, j: int| 0 <= i < j < places.len() ==> places[i] < places[j]
    &&& forall|i: int| 0 <= i < places.len() ==> #[trigger] places[i] < end
}

/// The clients that a message was delivered to, in order.
pub open spec fn delivered_to(clients: Seq<u64>, delivered: Seq<bool>) -> Seq<u64>
    decreases clients.len(),
{
    if clients.len() == 0 {
        Seq::empty()
    } else {
        let rest = delivered_to(clients.drop_last(), delivered.drop_last());
        if delivered.last() {
            rest.push(clients.last())
        } else {
            rest
        }
    }
}

/// Finds the path of the socket. `runtime_dir` is the user's runtime directory,
/// where the environment names one.
pub fn ipc_socket_path(runtime_dir: Option<String>, uid: u32) -> (path: String)
    ensures
        path@ == socket_path(
            match runtime_dir {
                Some(dir) => Some(dir@),
                None => None,
            },
            uid,
        ),
{
    let base = match runtime_dir {
        Some(dir) => dir,
        None => "/run/user/".to_string().concat(decimal_text(uid as u64).as_str()),
    };
    join_path(base.as_str(), "blue-compositor.sock")
}

/// Takes in the outcome of accepting a connection. A new client is told the name
/// of the Wayland socket.
pub fn accept(clients: &mut Vec<u64>, outcome: AcceptOutcome, socket: &str) -> (step: AcceptStep)
    ensures
        match outcome {
            AcceptOutcome::Accepted { client } => {
                &&& final(clients)@ == old(clients)@.push(client)
                &&& step.again
                &&& step.greeting matches Some(m) && m@ == (CompositorMessageView::Ready {
                    socket: socket@,
                })
            },
            _ => {
                &&& final(clients)@ == old(clients)@
                &&& !step.again
                &&& step.greeting is None
            },
        },
        step.again <==> outcome is Accepted,
        step.greeting is Some <==> outcome is Accepted,
        step.greeting matches Some(m) ==> (m matches CompositorMessage::Ready { socket: name }
            && name@ == socket@),
        outcome matches AcceptOutcome::Accepted { client } ==> final(clients)@.contains(client),
        forall|i: int| 0 <= i < old(clients)@.len() ==> #[trigger] final(clients)@[i] == old(
            clients,
        )@[i],
        final(clients)@.len() == old(clients)@.len() + if outcome is Accepted {
            1int
        } else {
            0
        },
{
    match outcome {
        AcceptOutcome::Accepted { client } => {
            clients.push(client);
            assert(clients@[old(clients)@.len() as int] == client);
            AcceptStep {
                greeting: Some(CompositorMessage::Ready { socket: socket.to_string() }),
                again: true,
            }
        },
        _ => AcceptStep { greeting: None, again: false },
    }
}

impl PollRound {
    /// The places to be removed are rising, and have all been passed.
    pub open spec fn valid(self) -> bool {
        are_rising_places(self.to_remove@, self.client as int)
    }

    /// Begins with the first client.
    pub fn new() -> (round: Self)
        ensures
            round.valid(),
            round.client == 0,
            round.to_remove@ == Seq::<usize>::empty(),
            round.texts@ == Seq::<String>::empty(),
    {
        PollRound { client: 0, to_remove: Vec::new(), texts: Vec::new() }
    }

    /// Takes in the outcome of one read, and tells whether the same client is read
    /// once more. After anything but a line, the next client is up.
    pub fn read(&mut self, outcome: ReadOutcome) -> (again: bool)
        requires
            old(self).valid(),
            old(self).client < usize::MAX,
        ensures
            final(self).valid(),
            again == outcome is Line,
            final(self).client == if outcome is Line {
                old(self).client as int
            } else {
                old(self).client + 1
            },
            final(self).to_remove@ == if is_gone(outcome) {
                old(self).to_remove@.push(old(self).client)
            } else {
                old(self).to_remove@
            },
            texts_view(final(self).texts@) == texts_view(old(self).texts@) + received(outcome),
            again <==> final(self).client == old(self).client,
            !again ==> final(self).client == old(self).client + 1,
            final(self).to_remove@.contains(old(self).client) <==> outcome is CloneFailed
                || outcome is Closed || outcome is Failed,
            final(self).texts@.len() > old(self).texts@.len() ==> outcome is Line,
    {
        proof {
            if self.to_remove@.contains(self.client) {
                let k = choose|k: int|
                    0 <= k < self.to_remove@.len() && self.to_remove@[k] == self.client;
                assert(self.to_remove@[k] < self.client);
            }
        }
        match outcome {
            ReadOutcome::Line { text } => {
                let content = trim(text.as_str());
                if content.as_str().unicode_len() > 0 {
                    self.texts.push(content);
                }
                assert(texts_view(self.texts@) =~= texts_view(old(self).texts@) + received(
                    outcome,
                ));
                true
            },
            ReadOutcome::CloneFailed | ReadOutcome::Closed | ReadOutcome::Failed => {
                self.to_remove.push(self.client);
                assert(self.to_remove@[old(self).to_remove@.len() as int] == old(self).client);
                self.client = self.client + 1;
                assert(texts_view(self.texts@) =~= texts_view(old(self).texts@) + received(
                    outcome,
                ));
                false
            },
            ReadOutcome::WouldBlock => {
                self.client = self.client + 1;
                assert(texts_view(self.texts@) =~= texts_view(old(self).texts@) + received(
                    outcome,
                ));
                false
            },
        }
    }

    /// Drops the clients that are gone, once every client has been read.
    pub fn disconnect(&self, clients: &mut Vec<u64>)
        requires
            self.valid(),
            self.client == old(clients)@.len(),
        ensures
            final(clients)@ == without(old(clients)@, self.to_remove@),
    {
        let ghost gone = self.to_remove@;
        let ghost all = clients@;
        let mut left: usize = self.to_remove.len();
        assert(gone.take(left as int) =~= gone);
        while left > 0
            invariant
                left <= gone.len(),
                gone == self.to_remove@,
                are_rising_places(gone, all.len() as int),
                left < gone.len() ==> clients@.len() >= gone[left as int],
                left == gone.len() ==> clients@.len() == all.len(),
                without(clients@, gone.take(left as int)) == without(all, gone),
            decreases left,
        {
            left = left - 1;
            let ghost before = clients@;
            assert(gone.take(left + 1).last() == gone[left as int]);
            assert(gone.take(left + 1).drop_last() =~= gone.take(left as int));
            clients.swap_remove(self.to_remove[left]);
            assert(clients@ == swap_removed(before, gone[left as int] as int));
        }
        assert(gone.take(0) =~= Seq::<usize>::empty());
    }
}

/// Keeps the clients that a message was delivered to, and drops the others.
pub fn broadcast(clients: &mut Vec<u64>, delivered: &Vec<bool>)
    requires
        delivered@.len() == old(clients)@.len(),
    ensures
        final(clients)@ == delivered_to(old(clients)@, delivered@),
{
    let mut kept: Vec<u64> = Vec::new();
    for i in 0..clients.len()
        invariant
            delivered@.len() == clients@.len(),
            kept@ == delivered_to(clients@.take(i as int), delivered@.take(i as int)),
    {
        assert(clients@.take(i + 1).drop_last() =~= clients@.take(i as int));
        assert(delivered@.take(i + 1).drop_last() =~= delivered@.take(i as int));
        if delivered[i] {
            kept.push(clients[i]);
        }
    }
    assert(clients@.take(clients@.len() as int) =~= clients@);
    assert(delivered@.take(clients@.len() as int) =~= delivered@);
    *clients = kept;
}

/// What is written to a stream for a message that is encoded as `json`: one line.
pub fn frame(json: String) -> (line: String)
    ensures
        line@ == json@ + "\n"@,
        line@.len() == json@.len() + 1,
        line@.take(json@.len() as int) == json@,
        line@.last() == '\n',
{
    proof {
        reveal_strlit("\n");
        assert((json@ + "\n"@).take(json@.len() as int) =~= json@);
    }
    json.concat("\n")
}

/// The list of windows that is sent to everyone, unless there are none.
pub fn window_list(windows: Vec<WindowInfo>) -> (message: Option<CompositorMessage>)
    ensures
        message is None <==> windows@.len() == 0,
        message matches Some(m) ==> m == (CompositorMessage::WindowList { windows }),
        windows@.len() > 0 ==> (message matches Some(CompositorMessage::WindowList {
            windows: listed,
        }) && listed@ == windows@),
{
    if windows.len() == 0 {
        None
    } else {
        Some(CompositorMessage::WindowList { windows })
    }
}

/// The message that a workspace has become current.
pub fn broadcast_workspace_switch(index: usize, count: usize) -> (message: CompositorMessage)
    ensures
        message == (CompositorMessage::WorkspaceSwitched { index, count }),
        message matches CompositorMessage::WorkspaceSwitched { index: i, count: n } && i == index
            && n == count,
{
    CompositorMessage::WorkspaceSwitched { index, count }
}

/// The message that the start menu opens or closes.
pub fn broadcast_start_menu_toggle() -> (message: CompositorMessage)
    ensures
        message == CompositorMessage::ToggleStartMenu,
        message is ToggleStartMenu,
{
    CompositorMessage::ToggleStartMenu
}

/// The message that a window has opened.
pub fn broadcast_window_opened(window: WindowInfo) -> (message: CompositorMessage)
    ensures
        message == (CompositorMessage::WindowOpened { window }),
        message matches CompositorMessage::WindowOpened { window: told } && told == window,
{
    CompositorMessage::WindowOpened { window }
}

/// The message that a window has closed.
pub fn broadcast_window_closed(id: u64) -> (message: CompositorMessage)
    ensures
        message == (CompositorMessage::WindowClosed { id }),
        message matches CompositorMessage::WindowClosed { id: told } && told == id,
{
    CompositorMessage::WindowClosed { id }
}

/// The message that the user has gone idle or has come back.
pub fn broadcast_idle_changed(idle: bool) -> (message: CompositorMessage)
    ensures
        message == (CompositorMessage::IdleChanged { idle }),
        message matches CompositorMessage::IdleChanged { idle: told } && told == idle,
{
    CompositorMessage::IdleChanged { idle }
}

/// The message that the screen was locked or unlocked.
pub fn broadcast_screen_locked(locked: bool) -> (message: CompositorMessage)
    ensures
        message == (CompositorMessage::ScreenLocked { locked }),
        message matches CompositorMessage::ScreenLocked { locked: told } && told == locked,
{
    CompositorMessage::ScreenLocked { locked }
}

/// The clients at the places `gone`.
pub open spec fn clients_at(clients: Seq<u64>, gone: Seq<usize>) -> Seq<u64> {
    gone.map_values(|i: usize| clients[i as int])
}

/// Exactly the clients that are gone leave: those that stay and those that leave
/// make up all that were there.
pub proof fn exactly_the_gone_clients_leave(clients: Seq<u64>, gone: Seq<usize>)
    requires
        are_rising_places(gone, clients.len() as int),
    ensures
        without(clients, gone).to_multiset().add(clients_at(clients, gone).to_multiset())
            == clients.to_multiset(),
    decreases gone.len(),
{
    broadcast use {
        vstd::seq_lib::group_to_multiset_ensures,
        vstd::multiset::group_multiset_axioms,
        vstd::multiset::group_multiset_properties,
    };

    if gone.len() == 0 {
        assert(clients_at(clients, gone) =~= Seq::<u64>::empty());
        assert(clients.to_multiset().add(Seq::<u64>::empty().to_multiset())
            =~= clients.to_multiset());
    } else {
        let i = gone.last() as int;
        assert(gone[gone.len() - 1] == i);
        let rest = gone.drop_last();
        let less = swap_removed(clients, i);
        assert(are_rising_places(rest, less.len() as int)) by {
            assert forall|k: int| 0 <= k < rest.len() implies #[trigger] rest[k] < less.len() by {
                assert(gone[k] < gone[gone.len() - 1]);
                assert(gone[gone.len() - 1] < clients.len());
            }
        }
        exactly_the_gone_clients_leave(less, rest);
        assert(clients_at(less, rest) =~= clients_at(clients, gone).drop_last()) by {
            assert forall|k: int| 0 <= k < rest.len() implies clients_at(less, rest)[k]
                == clients_at(clients, gone)[k] by {
                assert(gone[k] < gone[gone.len() - 1]);
            }
        }
        let at = clients_at(clients, gone);
        assert(at =~= at.drop_last().push(clients[i]));
        assert(at.to_multiset() == at.drop_last().to_multiset().insert(clients[i]));
        let moved = clients.update(i, clients.last());
        assert(moved =~= less.push(clients.last()));
        assert(moved.to_multiset() == less.to_multiset().insert(clients.last()));
        vstd::seq_lib::to_multiset_update(clients, i, clients.last());
        assert(clients.to_multiset().contains(clients[i])) by {
            assert(clients.contains(clients[i]));
        }
        let before = clients.to_multiset();
        let after = less.to_multiset();
        assert(after.insert(clients.last()) == before.insert(clients.last()).remove(clients[i]));
        assert forall|v: u64| before.count(v) == #[trigger] after.insert(clients[i]).count(v) by {
            assert(after.insert(clients.last()).count(v) == before.insert(clients.last()).remove(
                clients[i],
            ).count(v));
        }
        assert(before =~= after.insert(clients[i]));
        assert(without(clients, gone).to_multiset().add(at.to_multiset()) =~= without(
            less,
            rest,
        ).to_multiset().add(at.drop_last().to_multiset()).insert(clients[i]));
    }
}

/// A message that reaches everyone drops no client.
pub proof fn delivery_to_all_keeps_all(clients: Seq<u64>, delivered: Seq<bool>)
    requires
        clients.len() == delivered.len(),
        forall|i: int| 0 <= i < delivered.len() ==> #[trigger] delivered[i],
    ensures
        delivered_to(clients, delivered) == clients,
    decreases clients.len(),
{
    if clients.len() > 0 {
        delivery_to_all_keeps_all(clients.drop_last(), delivered.drop_last());
        assert(delivered[delivered.len() - 1]);
        assert(clients.drop_last().push(clients.last()) =~= clients);
    } else {
        assert(delivered_to(clients, delivered) =~= clients);
    }
}

/// A client stays after a broadcast only if the message was delivered to it, and
/// each one that it was delivered to stays.
pub proof fn broadcast_keeps_the_reachable(clients: Seq<u64>, delivered: Seq<bool>, client: u64)
    requires
        clients.len() == delivered.len(),
    ensures
        delivered_to(clients, delivered).contains(client) <==> exists|i: int|
            0 <= i < clients.len() && #[trigger] clients[i] == client && delivered[i],
    decreases clients.len(),
{
    if clients.len() > 0 {
        let n = clients.len() - 1;
        let rest = delivered_to(clients.drop_last(), delivered.drop_last());
        broadcast_keeps_the_reachable(clients.drop_last(), delivered.drop_last(), client);
        if rest.contains(client) {
            let i = choose|i: int|
                0 <= i < clients.drop_last().len() && #[trigger] clients.drop_last()[i] == client
                    && delivered.drop_last()[i];
            assert(clients[i] == client && delivered[i]);
            let k = choose|k: int| 0 <= k < rest.len() && rest[k] == client;
            assert(rest.push(clients.last())[k] == client);
        }
        if delivered[n] {
            assert(rest.push(clients.last())[rest.len() as int] == clients[n]);
        }
        if exists|i: int|
            0 <= i < clients.len() && #[trigger] clients[i] == client && delivered[i] {
            let i = choose|i: int|
                0 <= i < clients.len() && #[trigger] clients[i] == client && delivered[i];
            if i < n {
                assert(clients.drop_last()[i] == client && delivered.drop_last()[i]);
            }
        }
    }
}

/// The socket is in the runtime directory that is named. Where none is named, it is in the
/// one that is named after the user.
pub proof fn the_socket_is_in_the_runtime_directory(dir: Seq<char>, uid: u32)
    ensures
        socket_path(Some(dir), uid) == path_join(dir, "blue-compositor.sock"@),
        socket_path(None, uid) == "/run/user"@ + "/"@ + decimal(uid as nat) + "/"@
            + "blue-compositor.sock"@,
{
    reveal_strlit("/run/user/");
    reveal_strlit("/run/user");
    reveal_strlit("/");
    crate::text::decimals_read_as_their_number(uid as nat);
    let base = "/run/user/"@ + decimal(uid as nat);
    let number = decimal(uid as nat);
    assert(base.last() == number[number.len() - 1]);
    assert(48 <= number[number.len() - 1] as int <= 57);
    assert(socket_path(None, uid) =~= "/run/user"@ + "/"@ + decimal(uid as nat) + "/"@
        + "blue-compositor.sock"@);
}

/// A client is gone when it has closed its end, or when it cannot be read; not when it has
/// sent a line, and not when it has sent nothing yet.
pub proof fn silent_clients_stay(outcome: ReadOutcome)
    ensures
        is_gone(outcome) <==> !(outcome is Line) && !(outcome is WouldBlock),
        !(outcome is Line) ==> received(outcome).len() == 0,
{
}

/// A line that holds something is taken in once, without the white space around it. A line
/// of nothing but white space is passed over.
pub proof fn lines_are_taken_in_trimmed(text: String)
    ensures
        ({
            let taken = received(ReadOutcome::Line { text });
            &&& (exists|i: int|
                0 <= i < text@.len() && !crate::text::is_white_space(#[trigger] text@[i]))
                ==> taken.len() == 1 && taken[0] == trimmed(text@) && taken[0].len() > 0
            &&& (forall|i: int|
                0 <= i < text@.len() ==> crate::text::is_white_space(#[trigger] text@[i]))
                ==> taken.len() == 0
        }),
{
    crate::text::trimming_takes_only_white_space(text@);
    let s = text@;
    let (a, b) = choose|a: int, b: int|
        #![trigger s.subrange(a, b)]
        0 <= a <= b <= s.len() && trimmed(s) == s.subrange(a, b) && (forall|j: int|
            0 <= j < s.len() && !(a <= j < b) ==> crate::text::is_white_space(#[trigger] s[j])) && (
        a < b ==> !crate::text::is_white_space(s[a]) && !crate::text::is_white_space(s[b - 1]));
    if exists|i: int| 0 <= i < s.len() && !crate::text::is_white_space(#[trigger] s[i]) {
        let i = choose|i: int| 0 <= i < s.len() && !crate::text::is_white_space(#[trigger] s[i]);
        assert(a <= i < b);
    }
    if a < b {
        assert(!crate::text::is_white_space(s[a]));
    }
}

/// Where a client leaves, the last one takes its place, and the others keep theirs.
pub proof fn the_last_client_takes_the_place(clients: Seq<u64>, i: int, k: int)
    requires
        0 <= i < clients.len(),
    ensures
        swap_removed(clients, i).len() == clients.len() - 1,
        0 <= k < clients.len() - 1 && k != i ==> swap_removed(clients, i)[k] == clients[k],
        i < clients.len() - 1 ==> swap_removed(clients, i)[i] == clients.last(),
{
}

/// Where nobody is gone, nobody leaves; where one is, that one does.
pub proof fn nobody_leaves_without_cause(clients: Seq<u64>, place: usize)
    requires
        place < clients.len(),
    ensures
        without(clients, Seq::empty()) == clients,
        without(clients, seq![place]) == swap_removed(clients, place as int),
{
    let one = seq![place];
    assert(one.drop_last() =~= Seq::<usize>::empty());
    assert(without(swap_removed(clients, place as int), Seq::empty()) == swap_removed(
        clients,
        place as int,
    ));
}

/// Broadcasting to two groups one after the other is broadcasting to both: the clients that
/// stay keep their order, and what is delivered to one has no bearing on another.
pub proof fn broadcasts_keep_the_order(
    first: Seq<u64>,
    second: Seq<u64>,
    to_first: Seq<bool>,
    to_second: Seq<bool>,
)
    requires
        first.len() == to_first.len(),
        second.len() == to_second.len(),
    ensures
        delivered_to(first + second, to_first + to_second) == delivered_to(first, to_first)
            + delivered_to(second, to_second),
    decreases second.len(),
{
    if second.len() == 0 {
        assert(first + second =~= first);
        assert(to_first + to_second =~= to_first);
        assert(delivered_to(first, to_first) + delivered_to(second, to_second) =~= delivered_to(
            first,
            to_first,
        ));
    } else {
        let clients = first + second;
        let delivered = to_first + to_second;
        broadcasts_keep_the_order(first, second.drop_last(), to_first, to_second.drop_last());
        assert(clients.drop_last() =~= first + second.drop_last());
        assert(delivered.drop_last() =~= to_first + to_second.drop_last());
        assert(clients.last() == second.last());
        assert(delivered.last() == to_second.last());
        assert(delivered_to(clients, delivered) =~= delivered_to(first, to_first) + delivered_to(
            second,
            to_second,
        ));
    }
}

/// One client stays exactly if the message was delivered to it.
pub proof fn one_client_stays_if_reached(client: u64, delivered: bool)
    ensures
        delivered_to(seq![client], seq![delivered]) == if delivered {
            seq![client]
        } else {
            Seq::<u64>::empty()
        },
{
    assert(seq![client].drop_last() =~= Seq::<u64>::empty());
    assert(seq![delivered].drop_last() =~= Seq::<bool>::empty());
    assert(delivered_to(seq![client].drop_last(), seq![delivered].drop_last()) =~= Seq::<
        u64,
    >::empty());
    assert(delivered_to(seq![client], seq![delivered]) =~= if delivered {
        seq![client]
    } else {
        Seq::<u64>::empty()
    });
}

/// The clients are looked at about thirty times a second.
pub proof fn thirty_looks_fit_in_a_second()
    ensures
        30 * POLL_INTERVAL_MS <= 1000 < 30 * (POLL_INTERVAL_MS + 1),
{
}

/// Texts are viewed one by one, in order.
pub proof fn texts_are_viewed_in_order(texts: Seq<String>, i: int)
    ensures
        texts_view(texts).len() == texts.len(),
        0 <= i < texts.len() ==> texts_view(texts)[i] == texts[i]@,
{
}

} // verus!
