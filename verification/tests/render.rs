use netdash::app::{
    calc_network_status, ui, App, RenderError, GRAPH_PERCENT, MARGIN, PARAGRAPH_PERCENT,
};
use netdash::history::HistoryStore;
use netdash::networks::{
    create_interface_graph, create_interface_paragraph, to_network_stat_widgets,
    update_graph_data, InterfaceData,
};
use sysinfo::{System, SystemExt};

fn interface(name: &str, sent: u64) -> InterfaceData {
    InterfaceData {
        name: name.to_string(),
        sent_total: 0,
        rec_total: 0,
        sent,
        rec: 0,
        mac: [0; 6],
    }
}

fn state(interfaces: Vec<InterfaceData>) -> App {
    App {
        should_quit: false,
        sys: System::new(),
        net_interfaces: interfaces,
        net_interface_graphs: HistoryStore::new(),
    }
}

fn recorded(count: usize) -> App {
    let listed = (0..count).map(|index| interface(&format!("if{}", index), index as u64)).collect();
    let mut app = state(listed);
    update_graph_data(&mut app);
    app
}

#[test]
fn three_rows_are_thirty_three_percent_each() {
    let app = recorded(3);
    let tree = calc_network_status(&app).unwrap();
    assert_eq!(tree.row_percent, 33);
    assert_eq!(tree.paragraphs.len(), 3);
    assert_eq!(tree.graphs.len(), 3);
    assert!(3 * tree.row_percent < 100);
}

#[test]
fn row_height_is_the_hundred_divided_by_the_rows_rounded_down() {
    for (rows, percent) in [
        (1usize, 100u16),
        (2, 50),
        (4, 25),
        (6, 16),
        (7, 14),
        (9, 11),
        (50, 2),
        (51, 1),
        (100, 1),
        (101, 0),
        (250, 0),
    ] {
        let app = recorded(rows);
        let tree = calc_network_status(&app).unwrap();
        assert_eq!(tree.row_percent, percent);
        assert_eq!(tree.paragraphs.len(), rows);
        assert_eq!(tree.graphs.len(), rows);
    }
}

#[test]
fn no_interface_is_an_error() {
    let app = state(Vec::new());
    assert_eq!(calc_network_status(&app).err(), Some(RenderError::NoInterfaces));
    assert_eq!(ui(&app).err(), Some(RenderError::NoInterfaces));
}

#[test]
fn no_interface_is_an_error_whatever_the_history_holds() {
    let mut app = state(Vec::new());
    app.net_interface_graphs.record(&"eth0".to_string(), 1);
    assert_eq!(ui(&app).err(), Some(RenderError::NoInterfaces));
}

#[test]
fn the_error_says_what_is_wrong() {
    assert_eq!(RenderError::NoInterfaces.message(), "no network interface to show");
}

#[test]
fn shares_and_margin_are_fixed() {
    let app = recorded(2);
    let tree = ui(&app).unwrap();
    assert_eq!(tree.margin, 1);
    assert_eq!(tree.paragraph_percent, 30);
    assert_eq!(tree.graph_percent, 70);
    assert_eq!(MARGIN, 1);
    assert_eq!(PARAGRAPH_PERCENT, 30);
    assert_eq!(GRAPH_PERCENT, 70);
    assert_eq!(tree.paragraph_percent + tree.graph_percent, 100);
}

#[test]
fn graphs_are_paired_with_paragraphs_by_name() {
    let mut app = state(vec![interface("eth0", 0), interface("lo", 0)]);
    app.net_interface_graphs.record(&"lo".to_string(), 7);
    app.net_interface_graphs.record(&"lo".to_string(), 8);
    app.net_interface_graphs.record(&"eth0".to_string(), 100);
    let tree = ui(&app).unwrap();
    assert_eq!(tree.paragraphs[0].lines[0], "Interface: eth0");
    assert_eq!(tree.graphs[0].title, "eth0");
    assert_eq!(tree.graphs[0].data, &vec![100]);
    assert_eq!(tree.paragraphs[1].lines[0], "Interface: lo");
    assert_eq!(tree.graphs[1].title, "lo");
    assert_eq!(tree.graphs[1].data, &vec![7, 8]);
}

#[test]
fn pairing_follows_the_list_when_its_order_is_turned() {
    let mut app = state(vec![interface("lo", 0), interface("eth0", 0)]);
    app.net_interface_graphs.record(&"lo".to_string(), 7);
    app.net_interface_graphs.record(&"eth0".to_string(), 100);
    let (paragraphs, graphs) = to_network_stat_widgets(&app);
    assert_eq!(paragraphs[0].lines[0], "Interface: lo");
    assert_eq!(graphs[0].title, "lo");
    assert_eq!(graphs[0].data, &vec![7]);
    assert_eq!(paragraphs[1].lines[0], "Interface: eth0");
    assert_eq!(graphs[1].title, "eth0");
    assert_eq!(graphs[1].data, &vec![100]);
}

#[test]
fn histories_of_unlisted_names_are_not_drawn() {
    let mut app = state(vec![interface("eth0", 0)]);
    app.net_interface_graphs.record(&"usb0".to_string(), 1);
    app.net_interface_graphs.record(&"eth0".to_string(), 2);
    app.net_interface_graphs.record(&"wlan0".to_string(), 3);
    let tree = ui(&app).unwrap();
    assert_eq!(tree.row_percent, 100);
    assert_eq!(tree.graphs.len(), 1);
    assert_eq!(tree.graphs[0].title, "eth0");
    assert_eq!(tree.graphs[0].data, &vec![2]);
}

#[test]
fn a_graph_shows_the_whole_history() {
    let mut app = state(vec![interface("eth0", 0)]);
    for sample in 0..500u64 {
        app.net_interface_graphs.record(&"eth0".to_string(), sample);
    }
    let tree = ui(&app).unwrap();
    let expected: Vec<u64> = (0..500).collect();
    assert_eq!(tree.graphs[0].data, &expected);
}

#[test]
fn a_seeded_history_gives_an_empty_graph() {
    let mut app = state(vec![interface("eth0", 0)]);
    app.net_interface_graphs.insert("eth0".to_string(), Vec::new());
    let tree = ui(&app).unwrap();
    assert!(tree.graphs[0].data.is_empty());
}

#[test]
fn missing_history_is_told_before_drawing() {
    let mut app = state(vec![interface("eth0", 0), interface("lo", 0)]);
    assert!(!app.has_history_for_all());
    app.net_interface_graphs.record(&"eth0".to_string(), 1);
    assert!(!app.has_history_for_all());
    app.net_interface_graphs.record(&"lo".to_string(), 1);
    assert!(app.has_history_for_all());
    assert!(state(Vec::new()).has_history_for_all());
}

#[test]
fn paragraph_has_four_lines() {
    let paragraph = create_interface_paragraph(&InterfaceData {
        name: "eth0".to_string(),
        sent_total: 12345,
        rec_total: 67890,
        sent: 100,
        rec: 20,
        mac: [0x02, 0xfc, 0x00, 0x00, 0x00, 0x01],
    });
    assert_eq!(
        paragraph.lines,
        vec![
            "Interface: eth0".to_string(),
            "Sent/Recieved: 100 / 20".to_string(),
            "Total Send/Recieved 12345 / 67890".to_string(),
            "Mac Address 02:fc:00:00:00:01".to_string(),
        ]
    );
}

#[test]
fn paragraph_of_an_idle_interface() {
    let paragraph = create_interface_paragraph(&InterfaceData {
        name: "lo".to_string(),
        sent_total: 0,
        rec_total: 0,
        sent: 0,
        rec: 0,
        mac: [0; 6],
    });
    assert_eq!(
        paragraph.lines,
        vec![
            "Interface: lo".to_string(),
            "Sent/Recieved: 0 / 0".to_string(),
            "Total Send/Recieved 0 / 0".to_string(),
            "Mac Address 00:00:00:00:00:00".to_string(),
        ]
    );
}

#[test]
fn paragraph_with_the_largest_counters() {
    let paragraph = create_interface_paragraph(&InterfaceData {
        name: "".to_string(),
        sent_total: u64::MAX,
        rec_total: u64::MAX - 1,
        sent: u64::MAX,
        rec: 10,
        mac: [0xff, 0xab, 0x0a, 0x10, 0x9f, 0xf0],
    });
    assert_eq!(
        paragraph.lines,
        vec![
            "Interface: ".to_string(),
            "Sent/Recieved: 18446744073709551615 / 10".to_string(),
            "Total Send/Recieved 18446744073709551615 / 18446744073709551614".to_string(),
            "Mac Address ff:ab:0a:10:9f:f0".to_string(),
        ]
    );
}

#[test]
fn hardware_address_is_written_as_the_metrics_crate_writes_it() {
    for mac in [[0u8; 6], [1, 2, 3, 4, 5, 6], [0xa, 0xb, 0xc, 0xd, 0xe, 0xf], [255; 6]] {
        let mut data = interface("eth0", 0);
        data.mac = mac;
        let paragraph = create_interface_paragraph(&data);
        assert_eq!(paragraph.lines[3], format!("Mac Address {}", sysinfo::MacAddr(mac)));
    }
}

#[test]
fn graph_carries_the_name_and_the_samples() {
    let name = "eth0".to_string();
    let data = vec![3, 1, 2];
    let graph = create_interface_graph(&name, &data);
    assert_eq!(graph.title, "eth0");
    assert_eq!(graph.data, &vec![3, 1, 2]);
}
