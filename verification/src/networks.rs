//! Interface snapshots, the history they feed and the widgets made of them.

use sysinfo::{NetworkData, System};
use vstd::prelude::*;
use vstd::string::StringExecFns;

use crate::app::App;
use crate::history::{record_sample, samples_of};
use crate::metrics::{
    entry_names, mac_address, mac_address_of, mac_text, mac_to_string, network_entries,
    networks_of, received, received_of, total_received, total_received_of, total_transmitted,
    total_transmitted_of, transmitted, transmitted_of,
};
use crate::text::{decimal, push_decimal};

verus! {

/// The counters of one interface as one refresh found them.
#[derive(Clone, Debug, PartialEq, Eq)]
pub struct InterfaceData {
    /// The name of the interface; the key under which its history stands.
    pub name: String,
    /// All bytes sent so far.
    pub sent_total: u64,
    /// All bytes received so far.
    pub rec_total: u64,
    /// The bytes sent since the refresh before.
    pub sent: u64,
    /// The bytes received since the refresh before.
    pub rec: u64,
    /// The hardware address.
    pub mac: [u8; 6],
}

impl InterfaceData {
    /// The snapshot of the interface `name` whose counters are `data`.
    pub fn from(name: &String, data: &NetworkData) -> (interface: InterfaceData)
        ensures
            is_snapshot(interface, name@, *data),
    {
        InterfaceData {
            name: name.clone(),
            sent_total: total_transmitted(data),
            rec_total: total_received(data),
            sent: transmitted(data),
            rec: received(data),
            mac: mac_address(data),
        }
    }
}

/// `interface` is the snapshot of the interface `name` whose counters
/// are `data`: it carries that name and what the counters report.
pub open spec fn is_snapshot(interface: InterfaceData, name: Seq<char>, data: NetworkData) -> bool {
    &&& interface.name@ == name
    &&& interface.sent_total == total_transmitted_of(data)
    &&& interface.rec_total == total_received_of(data)
    &&& interface.sent == transmitted_of(data)
    &&& interface.rec == received_of(data)
    &&& interface.mac@ == mac_address_of(data)
}

/// The list holds the interfaces of `table` and no others, each once and
/// as the snapshot of its counters.
pub open spec fn lists(interfaces: Seq<InterfaceData>, table: Map<Seq<char>, NetworkData>) -> bool {
    &&& names(interfaces).no_duplicates()
    &&& names(interfaces).to_set() == table.dom()
    &&& forall|i: int|
        0 <= i < interfaces.len() ==> is_snapshot(
            #[trigger] interfaces[i],
            interfaces[i].name@,
            table[interfaces[i].name@],
        )
}

/// The names of the interfaces, in list order.
pub open spec fn names(interfaces: Seq<InterfaceData>) -> Seq<Seq<char>> {
    interfaces.map_values(|interface: InterfaceData| interface.name@)
}

/// The `sent` samples that the list holds under `name`, in list order.
pub open spec fn samples_for(interfaces: Seq<InterfaceData>, name: Seq<char>) -> Seq<u64>
    decreases interfaces.len(),
{
    if interfaces.len() == 0 {
        Seq::empty()
    } else {
        let earlier = samples_for(interfaces.drop_last(), name);
        if interfaces.last().name@ == name {
            earlier.push(interfaces.last().sent)
        } else {
            earlier
        }
    }
}

/// The history after the `sent` sample of every listed interface was
/// recorded: each name keeps the samples it had and gains those that the
/// list holds for it; a listed name without an entry gets one.
pub open spec fn history_after(
    history: Map<Seq<char>, Seq<u64>>,
    interfaces: Seq<InterfaceData>,
) -> Map<Seq<char>, Seq<u64>> {
    Map::new(
        |name: Seq<char>| history.contains_key(name) || names(interfaces).contains(name),
        |name: Seq<char>| samples_of(history, name) + samples_for(interfaces, name),
    )
}

/// Every listed interface has an entry in the history.
pub open spec fn covers(history: Map<Seq<char>, Seq<u64>>, interfaces: Seq<InterfaceData>) -> bool {
    forall|i: int| 0 <= i < interfaces.len() ==> history.contains_key(#[trigger] interfaces[i].name@)
}

/// A list that does not hold `name` holds no samples for it.
pub proof fn lemma_samples_for_absent(interfaces: Seq<InterfaceData>, name: Seq<char>)
    requires
        !names(interfaces).contains(name),
    ensures
        samples_for(interfaces, name) == Seq::<u64>::empty(),
    decreases interfaces.len(),
{
    if interfaces.len() > 0 {
        let earlier = interfaces.drop_last();
        assert(names(interfaces)[interfaces.len() - 1] == interfaces.last().name@);
        assert forall|i: int| 0 <= i < earlier.len() implies names(earlier)[i] != name by {
            assert(names(interfaces)[i] == names(earlier)[i]);
        }
        lemma_samples_for_absent(earlier, name);
    }
}

/// In a list without a repeated name, the samples for the name of a
/// listed interface are the one sample of that interface.
pub proof fn lemma_samples_for_listed(interfaces: Seq<InterfaceData>, i: int)
    requires
        names(interfaces).no_duplicates(),
        0 <= i < interfaces.len(),
    ensures
        samples_for(interfaces, interfaces[i].name@) == seq![interfaces[i].sent],
    decreases interfaces.len(),
{
    let name = interfaces[i].name@;
    let earlier = interfaces.drop_last();
    let end = interfaces.len() - 1;
    assert(names(earlier) =~= names(interfaces).drop_last());
    assert(names(interfaces)[i] == name);
    assert(names(interfaces)[end] == interfaces.last().name@);
    if i == end {
        assert forall|k: int| 0 <= k < earlier.len() implies names(earlier)[k] != name by {
            assert(names(interfaces)[k] == names(earlier)[k]);
        }
        lemma_samples_for_absent(earlier, name);
        assert(samples_for(interfaces, name) =~= seq![interfaces[i].sent]);
    } else {
        lemma_samples_for_listed(earlier, i);
    }
}

/// One recording keeps every entry and every sample, and gives every
/// listed interface an entry: this is what drawing relies on.
pub proof fn lemma_history_after_keeps(
    history: Map<Seq<char>, Seq<u64>>,
    interfaces: Seq<InterfaceData>,
)
    ensures
        history.dom().subset_of(history_after(history, interfaces).dom()),
        forall|name: Seq<char>| #[trigger]
            history.contains_key(name) ==> history[name].is_prefix_of(
                history_after(history, interfaces)[name],
            ),
        covers(history_after(history, interfaces), interfaces),
{
    assert forall|k: int| 0 <= k < interfaces.len() implies history_after(
        history,
        interfaces,
    ).contains_key(#[trigger] interfaces[k].name@) by {
        assert(names(interfaces)[k] == interfaces[k].name@);
    }
}

/// One recording of a list without a repeated name appends exactly one
/// sample to the history of every listed interface: the `sent` sample of
/// that interface.
pub proof fn lemma_listed_gains_one(
    history: Map<Seq<char>, Seq<u64>>,
    interfaces: Seq<InterfaceData>,
    i: int,
)
    requires
        names(interfaces).no_duplicates(),
        0 <= i < interfaces.len(),
    ensures
        history_after(history, interfaces).contains_key(interfaces[i].name@),
        history_after(history, interfaces)[interfaces[i].name@] == samples_of(
            history,
            interfaces[i].name@,
        ).push(interfaces[i].sent),
{
    let name = interfaces[i].name@;
    assert(names(interfaces)[i] == name);
    lemma_samples_for_listed(interfaces, i);
    assert(history_after(history, interfaces)[name] =~= samples_of(history, name).push(
        interfaces[i].sent,
    ));
}

/// One recording leaves the history of a name that is not listed as it
/// is: an entry stays with the samples it had, and none is made.
pub proof fn lemma_unlisted_keeps(
    history: Map<Seq<char>, Seq<u64>>,
    interfaces: Seq<InterfaceData>,
    name: Seq<char>,
)
    requires
        !names(interfaces).contains(name),
    ensures
        history_after(history, interfaces).contains_key(name) == history.contains_key(name),
        samples_of(history_after(history, interfaces), name) == samples_of(history, name),
{
    lemma_samples_for_absent(interfaces, name);
    assert(samples_of(history, name) + Seq::<u64>::empty() =~= samples_of(history, name));
}

/// Recording a list that ends in `last` is recording the list before it
/// and then the sample of `last`.
pub proof fn lemma_history_after_push(
    history: Map<Seq<char>, Seq<u64>>,
    interfaces: Seq<InterfaceData>,
    last: InterfaceData,
)
    ensures
        history_after(history, interfaces.push(last)) == record_sample(
            history_after(history, interfaces),
            last.name@,
            last.sent,
        ),
{
    let longer = interfaces.push(last);
    let before = history_after(history, interfaces);
    let after = history_after(history, longer);
    let target = record_sample(before, last.name@, last.sent);
    assert(longer.drop_last() =~= interfaces);
    assert(names(longer) =~= names(interfaces).push(last.name@));
    assert forall|name: Seq<char>| after.contains_key(name) <==> target.contains_key(name) by {
        if names(interfaces).contains(name) {
            let i = choose|i: int| 0 <= i < names(interfaces).len() && names(interfaces)[i] == name;
            assert(names(longer)[i] == name);
        }
        if names(longer).contains(name) && name != last.name@ {
            let i = choose|i: int| 0 <= i < names(longer).len() && names(longer)[i] == name;
            assert(names(interfaces)[i] == name);
        }
        if name == last.name@ {
            assert(names(longer)[interfaces.len() as int] == name);
        }
    }
    assert forall|name: Seq<char>| after.contains_key(name) implies after[name] == target[name] by {
        if name == last.name@ {
            if !before.contains_key(name) {
                lemma_samples_for_absent(interfaces, name);
            }
            assert(after[name] =~= target[name]);
        }
    }
    assert(after =~= target);
}

/// The text shown for one interface: its lines, top to bottom.
#[derive(Debug, PartialEq, Eq)]
pub struct InterfaceParagraph {
    pub lines: Vec<String>,
}

impl View for InterfaceParagraph {
    type V = Seq<Seq<char>>;

    open spec fn view(&self) -> Seq<Seq<char>> {
        self.lines@.map_values(|line: String| line@)
    }
}

/// The series drawn for one interface: its title and its samples, oldest
/// first.
#[derive(Debug, PartialEq, Eq)]
pub struct InterfaceGraph<'a> {
    pub title: String,
    pub data: &'a Vec<u64>,
}

/// The four lines that describe an interface: its name, what it sent and
/// received since the refresh before, what it sent and received in all,
/// and its hardware address.
pub open spec fn paragraph_lines(interface: InterfaceData) -> Seq<Seq<char>> {
    seq![
        "Interface: "@ + interface.name@,
        "Sent/Recieved: "@ + decimal(interface.sent as nat) + " / "@ + decimal(
            interface.rec as nat,
        ),
        "Total Send/Recieved "@ + decimal(interface.sent_total as nat) + " / "@ + decimal(
            interface.rec_total as nat,
        ),
        "Mac Address "@ + mac_text(interface.mac@),
    ]
}

/// The widgets show the listed interfaces one for one and in list order:
/// each paragraph describes its interface, and each graph carries the
/// name of its interface and the samples that the history holds under
/// that name.
pub open spec fn widgets_show(
    paragraphs: Seq<InterfaceParagraph>,
    graphs: Seq<InterfaceGraph<'_>>,
    interfaces: Seq<InterfaceData>,
    history: Map<Seq<char>, Seq<u64>>,
) -> bool {
    &&& paragraphs.len() == interfaces.len()
    &&& graphs.len() == interfaces.len()
    &&& forall|i: int|
        0 <= i < interfaces.len() ==> (#[trigger] paragraphs[i])@ == paragraph_lines(interfaces[i])
    &&& forall|i: int|
        0 <= i < interfaces.len() ==> (#[trigger] graphs[i]).title@ == interfaces[i].name@
            && graphs[i].data@ == history[interfaces[i].name@]
}

/// Writes the paragraph of one interface.
pub fn create_interface_paragraph(interface: &InterfaceData) -> (paragraph: InterfaceParagraph)
    ensures
        paragraph@ == paragraph_lines(*interface),
{
    let mut name_line = String::from_str("Interface: ");
    name_line.append(interface.name.as_str());

    let mut rate_line = String::from_str("Sent/Recieved: ");
    push_decimal(&mut rate_line, interface.sent);
    rate_line.append(" / ");
    push_decimal(&mut rate_line, interface.rec);

    let mut total_line = String::from_str("Total Send/Recieved ");
    push_decimal(&mut total_line, interface.sent_total);
    total_line.append(" / ");
    push_decimal(&mut total_line, interface.rec_total);

    let mut mac_line = String::from_str("Mac Address ");
    let mac = mac_to_string(&interface.mac);
    mac_line.append(mac.as_str());

    let mut lines: Vec<String> = Vec::new();
    lines.push(name_line);
    lines.push(rate_line);
    lines.push(total_line);
    lines.push(mac_line);
    let paragraph = InterfaceParagraph { lines };
    assert(paragraph@ =~= paragraph_lines(*interface));
    paragraph
}

/// Makes the graph of one interface from its name and its samples.
pub fn create_interface_graph<'a>(name: &'a String, val: &'a Vec<u64>) -> (graph: InterfaceGraph<'a>)
    ensures
        graph.title@ == name@,
        graph.data@ == val@,
{
    InterfaceGraph { title: name.clone(), data: val }
}

/// Makes the paragraph and the graph of every listed interface, in list
/// order. A graph is found by the name of its interface, so the two
/// widgets at one position always belong to the same interface, whatever
/// else the history holds.
pub fn to_network_stat_widgets(app: &App) -> (widgets: (
    Vec<InterfaceParagraph>,
    Vec<InterfaceGraph<'_>>,
))
    requires
        covers(app.net_interface_graphs@, app.net_interfaces@),
    ensures
        widgets_show(widgets.0@, widgets.1@, app.net_interfaces@, app.net_interface_graphs@),
{
    let mut network_data: Vec<InterfaceParagraph> = Vec::new();
    let mut network_spark: Vec<InterfaceGraph<'_>> = Vec::new();
    let mut i: usize = 0;
    while i < app.net_interfaces.len()
        invariant
            i <= app.net_interfaces.len(),
            covers(app.net_interface_graphs@, app.net_interfaces@),
            widgets_show(
                network_data@,
                network_spark@,
                app.net_interfaces@.take(i as int),
                app.net_interface_graphs@,
            ),
        decreases app.net_interfaces.len() - i,
    {
        let interface = &app.net_interfaces[i];
        let paragraph = create_interface_paragraph(interface);
        let samples = app.net_interface_graphs.get(&interface.name).unwrap();
        let spark = create_interface_graph(&interface.name, samples);
        network_data.push(paragraph);
        network_spark.push(spark);
        i += 1;
    }
    assert(app.net_interfaces@.take(app.net_interfaces.len() as int) =~= app.net_interfaces@);
    (network_data, network_spark)
}

/// Lists the interfaces that `sys` holds, each with its counters as they
/// stand now. The order is the one in which the handle hands them out.
pub fn list_interfaces(sys: &System) -> (interfaces: Vec<InterfaceData>)
    ensures
        lists(interfaces@, networks_of(*sys)),
{
    let entries = network_entries(sys);
    let mut interfaces: Vec<InterfaceData> = Vec::new();
    let mut i: usize = 0;
    while i < entries.len()
        invariant
            i <= entries.len(),
            interfaces.len() == i,
            forall|k: int|
                0 <= k < i ==> is_snapshot(#[trigger] interfaces[k], entries[k].0@, *entries[k].1),
        decreases entries.len() - i,
    {
        let (name, data) = entries[i];
        interfaces.push(InterfaceData::from(name, data));
        i += 1;
    }
    assert(names(interfaces@) =~= entry_names(entries@));
    interfaces
}

/// Replaces the list of interfaces by what the handle holds now. The old
/// list is dropped whole; the history is left as it is.
pub fn update_net_data(app: &mut App)
    ensures
        lists(final(app).net_interfaces@, networks_of(old(app).sys)),
        final(app).net_interface_graphs == old(app).net_interface_graphs,
        final(app).should_quit == old(app).should_quit,
        final(app).sys == old(app).sys,
{
    let interfaces = list_interfaces(&app.sys);
    app.net_interfaces = interfaces;
}

/// Appends the current `sent` sample of every listed interface to the
/// history of its name. A name that has no history yet gets one that
/// starts with this sample. Nothing else changes.
pub fn update_graph_data(app: &mut App)
    ensures
        final(app).net_interface_graphs@ == history_after(
            old(app).net_interface_graphs@,
            old(app).net_interfaces@,
        ),
        covers(final(app).net_interface_graphs@, final(app).net_interfaces@),
        final(app).net_interfaces == old(app).net_interfaces,
        final(app).should_quit == old(app).should_quit,
        final(app).sys == old(app).sys,
{
    let ghost start = app.net_interface_graphs@;
    let ghost listed = app.net_interfaces@;
    assert(history_after(start, listed.take(0)) =~= start);
    let mut i: usize = 0;
    while i < app.net_interfaces.len()
        invariant
            i <= app.net_interfaces.len(),
            app.net_interfaces@ == listed,
            app.net_interfaces == old(app).net_interfaces,
            app.should_quit == old(app).should_quit,
            app.sys == old(app).sys,
            app.net_interface_graphs@ == history_after(start, listed.take(i as int)),
        decreases app.net_interfaces.len() - i,
    {
        proof {
            assert(listed.take(i + 1) =~= listed.take(i as int).push(listed[i as int]));
            lemma_history_after_push(start, listed.take(i as int), listed[i as int]);
        }
        app.net_interface_graphs.record(&app.net_interfaces[i].name, app.net_interfaces[i].sent);
        i += 1;
    }
    proof {
        assert(listed.take(listed.len() as int) =~= listed);
        lemma_history_after_keeps(start, listed);
    }
}

} // verus!
