use ssh_list::connection::SSHConnection;
use ssh_list::hosts::get_names;
use ssh_list::import::{add_to_appconfig, flags_for, import_config, ImportError};
use ssh_list::resolve::parse_output;

const DEFAULTS: &str = "host default_output\nuser me\nhostname default_output\nport 22\naddressfamily any\nbatchmode no\nforwardagent no\ncompression no\n";

fn pair(k: &str, v: &str) -> (String, String) {
    (k.to_string(), v.to_string())
}

#[test]
fn host_with_another_port_is_imported_without_unchanged_flags() {
    let mut names = Vec::new();
    get_names(&mut names, "Host foo\n  Port 2222\n");
    assert_eq!(names, vec!["foo"]);
    let output = "host foo\nuser me\nhostname foo\nport 2222\naddressfamily any\nbatchmode no\nforwardagent no\ncompression no\n";
    let answers = vec![(names[0].clone(), Some(output.to_string()))];
    let mut store: Vec<SSHConnection> = Vec::new();
    let selected = import_config(&mut store, Some(DEFAULTS), &answers);
    assert_eq!(selected, Ok(1));
    assert_eq!(
        store,
        vec![SSHConnection {
            server_name: "foo".to_string(),
            group_name: String::new(),
            username: "me".to_string(),
            hostname: "foo".to_string(),
            port: "2222".to_string(),
            options: String::new(),
        }]
    );
}

#[test]
fn overrides_become_flags_in_the_order_printed() {
    let output = "host web\nuser deploy\nhostname web.example.com\nport 22\naddressfamily any\nbatchmode no\nforwardagent yes\ncompression no\nidentityfile ~/.ssh/web\nlocalforward 1080 [socks]:0\nremoteforward 8080 127.0.0.1:80\n";
    let answers = vec![("web".to_string(), Some(output.to_string()))];
    let mut store: Vec<SSHConnection> = Vec::new();
    assert_eq!(import_config(&mut store, Some(DEFAULTS), &answers), Ok(1));
    assert_eq!(store[0].username, "deploy");
    assert_eq!(store[0].hostname, "web.example.com");
    assert_eq!(store[0].port, "22");
    assert_eq!(store[0].group_name, "");
    assert_eq!(
        store[0].options,
        "-o ForwardAgent=yes -i ~/.ssh/web -R 1080 -L 8080:127.0.0.1:80 "
    );
}

#[test]
fn records_are_appended_in_the_order_of_the_aliases() {
    let existing = SSHConnection {
        server_name: "old".to_string(),
        group_name: "Home".to_string(),
        username: "u".to_string(),
        hostname: "h".to_string(),
        port: "22".to_string(),
        options: "-D 1".to_string(),
    };
    let mut store = vec![existing.clone()];
    let answers = vec![
        ("b".to_string(), Some("host b\nport 22\n".to_string())),
        ("missing".to_string(), None),
        ("a".to_string(), Some("host a\nport 23\nforwardagent no\n".to_string())),
    ];
    assert_eq!(import_config(&mut store, Some(DEFAULTS), &answers), Ok(3));
    assert_eq!(store.len(), 3);
    assert_eq!(store[0], existing);
    assert_eq!(store[1].server_name, "b");
    assert_eq!(store[2].server_name, "a");
    assert_eq!(store[2].port, "23");
    assert_eq!(store[2].options, "");
}

#[test]
fn import_without_a_baseline_changes_nothing() {
    let mut store: Vec<SSHConnection> = Vec::new();
    let answers = vec![("a".to_string(), Some("port 1\n".to_string()))];
    assert_eq!(import_config(&mut store, None, &answers), Err(ImportError::NoBaseline));
    assert!(store.is_empty());
}

#[test]
fn import_of_nothing_selects_the_end_of_the_store() {
    let mut store: Vec<SSHConnection> = Vec::new();
    assert_eq!(import_config(&mut store, Some(DEFAULTS), &Vec::new()), Ok(0));
    assert!(store.is_empty());
}

#[test]
fn flags_are_joined_as_they_are() {
    assert_eq!(flags_for(&vec![]), "");
    assert_eq!(
        flags_for(&vec![pair("proxyjump", "b"), pair("sendenv", "LANG"), pair("newkey", "v")]),
        "-J b -o SendEnv=LANG -o newkey=v "
    );
}

#[test]
fn configurations_become_records_with_an_empty_group() {
    let mut store: Vec<SSHConnection> = Vec::new();
    let sshconfig = vec![
        parse_output("one", "user a\nhostname h1\nport 1\ndynamicforward 9\n"),
        parse_output("two", "user b\nhostname h2\nport 2\n"),
    ];
    add_to_appconfig(sshconfig, &mut store);
    assert_eq!(store.len(), 2);
    assert_eq!(store[0].server_name, "one");
    assert_eq!(store[0].group_name, "");
    assert_eq!(store[0].username, "a");
    assert_eq!(store[0].hostname, "h1");
    assert_eq!(store[0].port, "1");
    assert_eq!(store[0].options, "-D 9 ");
    assert_eq!(store[1].options, "");
}
