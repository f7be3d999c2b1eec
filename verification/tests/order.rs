use ssh_list::connection::SSHConnection;
use ssh_list::order::{column_of, key_for, key_le, port_key, port_of, sort_connections, text_key, Column};

fn conn(name: &str, group: &str, user: &str, host: &str, port: &str) -> SSHConnection {
    SSHConnection {
        server_name: name.to_string(),
        group_name: group.to_string(),
        username: user.to_string(),
        hostname: host.to_string(),
        port: port.to_string(),
        options: String::new(),
    }
}

fn names(v: &Vec<SSHConnection>) -> Vec<String> {
    v.iter().map(|c| c.server_name.clone()).collect()
}

#[test]
fn port_numbers_are_read_as_decimal() {
    assert_eq!(port_of("22"), Some(22));
    assert_eq!(port_of("0"), Some(0));
    assert_eq!(port_of("65535"), Some(65535));
    assert_eq!(port_of("+443"), Some(443));
    assert_eq!(port_of("00022"), Some(22));
}

#[test]
fn texts_that_are_no_port_number() {
    for text in ["", "+", "-1", "65536", "99999999999999999999", "22a", " 22", "22 ", "2 2", "ssh", "++1", "1+", "٢٢"] {
        assert_eq!(port_of(text), None);
    }
}

#[test]
fn port_reading_agrees_with_the_standard_library() {
    for text in ["", "+", "-", "-0", "+0", "0", "7", "65535", "65536", "065535", "0000000000000000001",
        "1e3", "0x10", "12345", "123456", "+65535", "+65536", " 1", "1 ", "٣"]
    {
        assert_eq!(port_of(text), text.parse::<u16>().ok());
    }
}

#[test]
fn unreadable_port_sorts_as_zero() {
    assert_eq!(port_key("abc"), 0);
    assert_eq!(port_key(""), 0);
    assert_eq!(port_key("70000"), 0);
    assert_eq!(port_key("2222"), 2222);
}

#[test]
fn sorting_by_port_puts_unreadable_ports_with_port_zero() {
    let mut store = vec![
        conn("a", "", "", "", "2222"),
        conn("b", "", "", "", "none"),
        conn("c", "", "", "", "22"),
        conn("d", "", "", "", "0"),
        conn("e", "", "", "", ""),
        conn("f", "", "", "", "443"),
    ];
    sort_connections(&mut store, Column::Port);
    assert_eq!(names(&store), vec!["b", "d", "e", "c", "f", "a"]);
}

#[test]
fn sorting_by_port_is_by_number() {
    let mut store = vec![conn("a", "", "", "", "100"), conn("b", "", "", "", "22"), conn("c", "", "", "", "9")];
    sort_connections(&mut store, Column::Port);
    assert_eq!(names(&store), vec!["c", "b", "a"]);
}

#[test]
fn sorting_by_text_ignores_case_and_keeps_equal_rows_in_order() {
    let mut store = vec![
        conn("delta", "", "", "", ""),
        conn("Alpha", "", "", "", "1"),
        conn("charlie", "", "", "", ""),
        conn("alpha", "", "", "", "2"),
        conn("Bravo", "", "", "", ""),
        conn("ALPHA", "", "", "", "3"),
    ];
    sort_connections(&mut store, Column::Name);
    assert_eq!(names(&store), vec!["Alpha", "alpha", "ALPHA", "Bravo", "charlie", "delta"]);
    let ports: Vec<String> = store.iter().take(3).map(|c| c.port.clone()).collect();
    assert_eq!(ports, vec!["1", "2", "3"]);
}

#[test]
fn sorting_by_the_other_text_columns() {
    let mut store = vec![
        conn("1", "work", "zed", "b.example", ""),
        conn("2", "Home", "amy", "C.example", ""),
        conn("3", "", "Bob", "a.example", ""),
    ];
    sort_connections(&mut store, Column::Group);
    assert_eq!(names(&store), vec!["3", "2", "1"]);
    sort_connections(&mut store, Column::Username);
    assert_eq!(names(&store), vec!["2", "3", "1"]);
    sort_connections(&mut store, Column::Hostname);
    assert_eq!(names(&store), vec!["3", "1", "2"]);
}

#[test]
fn sorting_agrees_with_the_standard_stable_sort() {
    let mut store = Vec::new();
    let mut seed: u32 = 7;
    for i in 0..60 {
        seed = seed.wrapping_mul(1103515245).wrapping_add(12345);
        let port = match seed % 5 {
            0 => "x".to_string(),
            _ => ((seed >> 8) % 7).to_string(),
        };
        store.push(conn(&i.to_string(), "", "", "", &port));
    }
    let mut expected = store.clone();
    expected.sort_by_key(|c| c.port.parse::<u16>().unwrap_or_default());
    sort_connections(&mut store, Column::Port);
    assert_eq!(store, expected);
}

#[test]
fn sorting_nothing_or_one_record() {
    let mut none: Vec<SSHConnection> = Vec::new();
    sort_connections(&mut none, Column::Name);
    assert!(none.is_empty());
    let mut one = vec![conn("only", "", "", "", "")];
    sort_connections(&mut one, Column::Port);
    assert_eq!(names(&one), vec!["only"]);
}

#[test]
fn keys_compare_item_by_item() {
    assert!(key_le(&[], &[]));
    assert!(key_le(&[], &[1]));
    assert!(!key_le(&[1], &[]));
    assert!(key_le(&[1, 2], &[1, 2]));
    assert!(key_le(&[1, 2], &[1, 3]));
    assert!(!key_le(&[1, 3], &[1, 2]));
    assert!(key_le(&[1], &[1, 0]));
    assert!(!key_le(&[2], &[1, 9]));
}

#[test]
fn text_key_is_the_lowercase_code_points() {
    assert_eq!(text_key("aB"), vec![97, 98]);
    assert_eq!(text_key(""), Vec::<u32>::new());
}

#[test]
fn key_of_a_record() {
    let c = conn("N", "G", "U", "H", "22");
    assert_eq!(key_for(Column::Name, &c), vec![110]);
    assert_eq!(key_for(Column::Group, &c), vec![103]);
    assert_eq!(key_for(Column::Username, &c), vec![117]);
    assert_eq!(key_for(Column::Hostname, &c), vec![104]);
    assert_eq!(key_for(Column::Port, &c), vec![22]);
}

#[test]
fn columns_have_names() {
    assert_eq!(column_of("name"), Some(Column::Name));
    assert_eq!(column_of("group"), Some(Column::Group));
    assert_eq!(column_of("username"), Some(Column::Username));
    assert_eq!(column_of("hostname"), Some(Column::Hostname));
    assert_eq!(column_of("port"), Some(Column::Port));
    assert_eq!(column_of("Name"), None);
    assert_eq!(column_of("options"), None);
    assert_eq!(column_of(""), None);
}
