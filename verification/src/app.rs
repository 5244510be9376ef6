//! The dashboard's state, the transition that an action causes, and the
//! description of what is drawn.

use sysinfo::System;
use vstd::prelude::*;
use vstd::string::StringExecFns;

use crate::action::Action;
use crate::history::{samples_of, HistoryStore};
use crate::metrics::{networks_of, refresh_networks};
use crate::networks::{
    covers, history_after, lemma_history_after_keeps, lemma_listed_gains_one,
    lemma_unlisted_keeps, list_interfaces, lists, names, to_network_stat_widgets,
    update_graph_data, update_net_data, widgets_show, InterfaceData, InterfaceGraph,
    InterfaceParagraph,
};

verus! {

/// Cells left free between the edge of the drawing area and the rows.
pub const MARGIN: u16 = 1;

/// Share of a row's height that the paragraph takes, in percent.
pub const PARAGRAPH_PERCENT: u16 = 30;

/// Share of a row's height that the graph takes, in percent.
pub const GRAPH_PERCENT: u16 = 70;

/// The state of the dashboard.
pub struct App {
    /// Set once the user asked to leave.
    pub should_quit: bool,
    /// The handle through which the counters are read.
    pub sys: System,
    /// The interfaces as the last refresh found them.
    pub net_interfaces: Vec<InterfaceData>,
    /// The samples recorded so far, by interface name.
    pub net_interface_graphs: HistoryStore,
}

/// The state as the transitions see it: everything but the handle.
#[verifier::ext_equal]
pub struct AppState {
    pub should_quit: bool,
    pub interfaces: Seq<InterfaceData>,
    pub history: Map<Seq<char>, Seq<u64>>,
}

impl View for App {
    type V = AppState;

    open spec fn view(&self) -> AppState {
        AppState {
            should_quit: self.should_quit,
            interfaces: self.net_interfaces@,
            history: self.net_interface_graphs@,
        }
    }
}

/// The history in which every listed interface has an entry without
/// samples, and nothing else stands.
pub open spec fn seeded(interfaces: Seq<InterfaceData>) -> Map<Seq<char>, Seq<u64>> {
    Map::new(|name: Seq<char>| names(interfaces).contains(name), |name: Seq<char>| Seq::empty())
}

/// The state that follows `state` on `action`, where `readings` are the
/// interfaces that a refresh finds.
///
/// Quitting sets the flag and nothing else. A tick takes the readings as
/// the new list of interfaces and records the `sent` sample of each. Any
/// other action leaves the state as it is.
pub open spec fn step(state: AppState, action: Action, readings: Seq<InterfaceData>) -> AppState {
    match action {
        Action::Quit => AppState { should_quit: true, ..state },
        Action::Tick => AppState {
            should_quit: state.should_quit,
            interfaces: readings,
            history: history_after(state.history, readings),
        },
        Action::NoOp => state,
    }
}

/// The state after the actions were applied in order, where
/// `readings[i]` are the interfaces that a refresh finds when
/// `actions[i]` is applied.
pub open spec fn run(
    state: AppState,
    actions: Seq<Action>,
    readings: Seq<Seq<InterfaceData>>,
) -> AppState
    recommends
        actions.len() == readings.len(),
    decreases actions.len(),
{
    if actions.len() == 0 {
        state
    } else {
        step(
            run(state, actions.drop_last(), readings.drop_last()),
            actions.last(),
            readings.last(),
        )
    }
}

/// The number of ticks among the actions whose refresh finds an
/// interface called `name`.
pub open spec fn ticks_listing(
    actions: Seq<Action>,
    readings: Seq<Seq<InterfaceData>>,
    name: Seq<char>,
) -> nat
    recommends
        actions.len() == readings.len(),
    decreases actions.len(),
{
    if actions.len() == 0 {
        0
    } else {
        let earlier = ticks_listing(actions.drop_last(), readings.drop_last(), name);
        if actions.last() is Tick && names(readings.last()).contains(name) {
            earlier + 1
        } else {
            earlier
        }
    }
}

/// Over any sequence of actions, the history of a name grows by exactly
/// one sample for every tick whose refresh finds an interface of that
/// name, and by nothing else, as long as no refresh reports a name
/// twice.
pub proof fn lemma_one_sample_per_tick(
    state: AppState,
    actions: Seq<Action>,
    readings: Seq<Seq<InterfaceData>>,
    name: Seq<char>,
)
    requires
        actions.len() == readings.len(),
        forall|i: int|
            0 <= i < actions.len() && actions[i] is Tick ==> names(
                #[trigger] readings[i],
            ).no_duplicates(),
    ensures
        samples_of(run(state, actions, readings).history, name).len() == samples_of(
            state.history,
            name,
        ).len() + ticks_listing(actions, readings, name),
    decreases actions.len(),
{
    if actions.len() > 0 {
        let before = run(state, actions.drop_last(), readings.drop_last());
        let found = readings.last();
        assert forall|i: int|
            0 <= i < actions.drop_last().len() && actions.drop_last()[i] is Tick implies names(
            #[trigger] readings.drop_last()[i],
        ).no_duplicates() by {
            assert(readings.drop_last()[i] == readings[i]);
        }
        lemma_one_sample_per_tick(state, actions.drop_last(), readings.drop_last(), name);
        if actions.last() is Tick {
            assert(names(readings[actions.len() - 1]).no_duplicates());
            if names(found).contains(name) {
                let i = choose|i: int| 0 <= i < names(found).len() && names(found)[i] == name;
                lemma_listed_gains_one(before.history, found, i);
            } else {
                lemma_unlisted_keeps(before.history, found, name);
            }
        }
    }
}

/// Over any sequence of actions, an entry of the history is never
/// removed and never loses a sample: the samples that a name had at the
/// start stay at the front of its history. Where no tick finds an
/// interface of that name, its history stays exactly as it was.
pub proof fn lemma_entries_are_kept(
    state: AppState,
    actions: Seq<Action>,
    readings: Seq<Seq<InterfaceData>>,
    name: Seq<char>,
)
    requires
        actions.len() == readings.len(),
        state.history.contains_key(name),
    ensures
        run(state, actions, readings).history.contains_key(name),
        state.history[name].is_prefix_of(run(state, actions, readings).history[name]),
        ticks_listing(actions, readings, name) == 0 ==> run(
            state,
            actions,
            readings,
        ).history[name] == state.history[name],
    decreases actions.len(),
{
    if actions.len() > 0 {
        let before = run(state, actions.drop_last(), readings.drop_last());
        let found = readings.last();
        lemma_entries_are_kept(state, actions.drop_last(), readings.drop_last(), name);
        if actions.last() is Tick {
            lemma_history_after_keeps(before.history, found);
            if !names(found).contains(name) {
                lemma_unlisted_keeps(before.history, found, name);
            }
        }
    }
}

/// Quitting twice is quitting once: on a state that is quitting already
/// the action changes nothing, whatever a refresh would find.
pub proof fn lemma_quit_is_idempotent(
    state: AppState,
    first: Seq<InterfaceData>,
    second: Seq<InterfaceData>,
)
    ensures
        step(state, Action::Quit, first).should_quit,
        step(step(state, Action::Quit, first), Action::Quit, second) == step(
            state,
            Action::Quit,
            first,
        ),
        state.should_quit ==> step(state, Action::Quit, first) == state,
{
}

/// After a tick every listed interface has an entry in the history; the
/// other actions keep that so where it was so before.
pub proof fn lemma_step_covers(state: AppState, action: Action, readings: Seq<InterfaceData>)
    requires
        action is Tick || covers(state.history, state.interfaces),
    ensures
        covers(step(state, action, readings).history, step(state, action, readings).interfaces),
{
    if action is Tick {
        lemma_history_after_keeps(state.history, readings);
    }
}

impl App {
    /// The state at the start: not quitting, the interfaces that `sys`
    /// lists, and for each of them a history without samples.
    pub fn new(sys: System) -> (app: App)
        ensures
            !app.should_quit,
            app.sys == sys,
            lists(app.net_interfaces@, networks_of(sys)),
            app.net_interface_graphs@ == seeded(app.net_interfaces@),
            covers(app.net_interface_graphs@, app.net_interfaces@),
    {
        let interfaces = list_interfaces(&sys);
        let mut set = HistoryStore::new();
        let mut i: usize = 0;
        assert(set@ =~= seeded(interfaces@.take(0)));
        while i < interfaces.len()
            invariant
                i <= interfaces.len(),
                set@ == seeded(interfaces@.take(i as int)),
            decreases interfaces.len() - i,
        {
            proof {
                let shorter = interfaces@.take(i as int);
                let longer = interfaces@.take(i + 1);
                assert(names(longer) =~= names(shorter).push(interfaces[i as int].name@));
                assert forall|name: Seq<char>| names(longer).contains(name) <==> (names(
                    shorter,
                ).contains(name) || name == interfaces[i as int].name@) by {
                    if names(shorter).contains(name) {
                        let k = choose|k: int| 0 <= k < shorter.len() && names(shorter)[k] == name;
                        assert(names(longer)[k] == name);
                    }
                    if name == interfaces[i as int].name@ {
                        assert(names(longer)[i as int] == name);
                    }
                }
                assert(seeded(longer) =~= seeded(shorter).insert(
                    interfaces[i as int].name@,
                    Seq::empty(),
                ));
            }
            set.insert(interfaces[i].name.clone(), Vec::new());
            i += 1;
        }
        proof {
            assert(interfaces@.take(interfaces.len() as int) =~= interfaces@);
            assert forall|k: int| 0 <= k < interfaces.len() implies seeded(
                interfaces@,
            ).contains_key(#[trigger] interfaces[k].name@) by {
                assert(names(interfaces@)[k] == interfaces[k].name@);
            }
        }
        App { should_quit: false, sys, net_interfaces: interfaces, net_interface_graphs: set }
    }

    /// Whether every listed interface has an entry in the history, as
    /// drawing needs it.
    pub fn has_history_for_all(&self) -> (ok: bool)
        ensures
            ok == covers(self.net_interface_graphs@, self.net_interfaces@),
    {
        let mut i: usize = 0;
        while i < self.net_interfaces.len()
            invariant
                i <= self.net_interfaces.len(),
                forall|k: int|
                    0 <= k < i ==> self.net_interface_graphs@.contains_key(
                        #[trigger] self.net_interfaces[k].name@,
                    ),
            decreases self.net_interfaces.len() - i,
        {
            if !self.net_interface_graphs.contains_key(&self.net_interfaces[i].name) {
                return false;
            }
            i += 1;
        }
        true
    }
}

/// Applies `action` to the state.
///
/// Quitting sets the flag. A tick has the handle read the counters anew,
/// then replaces the list of interfaces by what the handle holds, then
/// records the `sent` sample of each listed interface. Any other action
/// changes nothing. What the handle reports on a tick is the operating
/// system's to decide; whatever it is, the state that results is the one
/// that `step` gives for it.
pub fn update(app: &mut App, action: Action)
    ensures
        final(app)@ == step(old(app)@, action, final(app).net_interfaces@),
        action is Tick ==> lists(final(app).net_interfaces@, networks_of(final(app).sys)),
        !(action is Tick) ==> final(app).sys == old(app).sys,
        action is Tick || covers(old(app).net_interface_graphs@, old(app).net_interfaces@)
            ==> covers(final(app).net_interface_graphs@, final(app).net_interfaces@),
{
    match action {
        Action::Quit => {
            app.should_quit = true;
        },
        Action::Tick => {
            refresh_networks(&mut app.sys);
            update_net_data(app);
            update_graph_data(app);
        },
        Action::NoOp => {},
    }
}

/// Why nothing can be drawn.
#[derive(Clone, Copy, Debug, PartialEq, Eq, Structural)]
pub enum RenderError {
    /// No interface is listed, so the drawing area cannot be divided
    /// into rows.
    NoInterfaces,
}

impl RenderError {
    /// The error in words.
    pub fn message(&self) -> (text: String)
        ensures
            text@ == "no network interface to show"@,
    {
        String::from_str("no network interface to show")
    }
}

/// What is drawn: one row for each listed interface, top to bottom in
/// list order, all rows of the same height. Row `i` shows `paragraphs[i]`
/// above `graphs[i]`.
pub struct RenderTree<'a> {
    /// Cells left free on every side of the drawing area.
    pub margin: u16,
    /// Height of every row, in percent of the area inside the margin.
    pub row_percent: u16,
    /// Share of a row that its paragraph takes, in percent.
    pub paragraph_percent: u16,
    /// Share of a row that its graph takes, in percent.
    pub graph_percent: u16,
    pub paragraphs: Vec<InterfaceParagraph>,
    pub graphs: Vec<InterfaceGraph<'a>>,
}

/// The height of each of `rows` equal rows in percent, rounded down. The
/// rows together may cover less than the whole.
pub open spec fn row_percent(rows: nat) -> nat
    recommends
        rows > 0,
{
    100nat / rows
}

/// `result` is what drawing `app` gives. With at least one interface
/// listed it is a tree with the fixed margin, a row height of one hundred
/// percent divided by the number of interfaces and rounded down, the
/// fixed shares of paragraph and graph, and the widgets of the
/// interfaces. With none listed it is the error that says so.
pub open spec fn draws(result: Result<RenderTree<'_>, RenderError>, app: App) -> bool {
    match result {
        Ok(tree) => {
            &&& app.net_interfaces.len() > 0
            &&& tree.margin == MARGIN
            &&& tree.row_percent == row_percent(app.net_interfaces.len() as nat)
            &&& tree.paragraph_percent == PARAGRAPH_PERCENT
            &&& tree.graph_percent == GRAPH_PERCENT
            &&& widgets_show(
                tree.paragraphs@,
                tree.graphs@,
                app.net_interfaces@,
                app.net_interface_graphs@,
            )
        },
        Err(error) => error == RenderError::NoInterfaces && app.net_interfaces.len() == 0,
    }
}

/// Lays out the widgets of the listed interfaces: as many rows of equal
/// height as there are interfaces, each divided between the paragraph
/// and the graph of one interface. Without an interface there is nothing
/// to divide, and the error says so.
pub fn calc_network_status(app: &App) -> (result: Result<RenderTree<'_>, RenderError>)
    requires
        covers(app.net_interface_graphs@, app.net_interfaces@),
    ensures
        draws(result, *app),
{
    let (network_data, network_spark) = to_network_stat_widgets(app);
    let rows: usize = network_data.len();
    if rows == 0 {
        return Err(RenderError::NoInterfaces);
    }
    let percentage: u16 = (100 / rows) as u16;
    Ok(
        RenderTree {
            margin: MARGIN,
            row_percent: percentage,
            paragraph_percent: PARAGRAPH_PERCENT,
            graph_percent: GRAPH_PERCENT,
            paragraphs: network_data,
            graphs: network_spark,
        },
    )
}

/// What the dashboard shows in the given state.
pub fn ui(app: &App) -> (result: Result<RenderTree<'_>, RenderError>)
    requires
        covers(app.net_interface_graphs@, app.net_interfaces@),
    ensures
        draws(result, *app),
{
    calc_network_status(app)
}

} // verus!
