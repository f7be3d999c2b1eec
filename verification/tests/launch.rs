use ssh_list::app::{App, AppMode};
use ssh_list::connection::SSHConnection;
use ssh_list::launch::{assemble_args, connect_args};

fn conn(options: &str) -> SSHConnection {
    SSHConnection {
        server_name: "web".to_string(),
        group_name: "Work".to_string(),
        username: "deploy".to_string(),
        hostname: "web.example.com".to_string(),
        port: "2222".to_string(),
        options: options.to_string(),
    }
}

#[test]
fn client_gets_port_options_target_and_command() {
    assert_eq!(
        connect_args(&conn("-D 1337 -o ProxyCommand='nc %h %p'"), "uptime -p"),
        vec!["-p", "2222", "-D", "1337", "-o", "ProxyCommand=nc %h %p", "deploy@web.example.com", "uptime", "-p"]
    );
}

#[test]
fn client_without_options_and_command() {
    assert_eq!(connect_args(&conn(""), ""), vec!["-p", "2222", "deploy@web.example.com"]);
}

#[test]
fn text_that_cannot_be_split_gives_no_words() {
    assert_eq!(
        connect_args(&conn("-o 'unclosed"), "echo \"open"),
        vec!["-p", "2222", "deploy@web.example.com"]
    );
}

#[test]
fn arguments_are_put_together_from_given_words() {
    let opts = Some(vec!["-A".to_string(), "-X".to_string()]);
    let cmd = Some(vec!["ls".to_string()]);
    assert_eq!(
        assemble_args(&conn("ignored"), opts, cmd),
        vec!["-p", "2222", "-A", "-X", "deploy@web.example.com", "ls"]
    );
    assert_eq!(assemble_args(&conn("ignored"), None, None), vec!["-p", "2222", "deploy@web.example.com"]);
}

#[test]
fn connect_takes_the_record_that_the_selection_stands_for() {
    let mut other = conn("-A");
    other.hostname = "db.example.com".to_string();
    let mut app = App::new(vec![conn(""), other]);
    app.selected = Some(1);
    assert_eq!(app.connect(None), Some(vec!["-p".to_string(), "2222".to_string(), "-A".to_string(), "deploy@db.example.com".to_string()]));
    assert_eq!(
        app.connect(Some("df -h".to_string())).unwrap(),
        vec!["-p", "2222", "-A", "deploy@db.example.com", "df", "-h"]
    );
    app.selected = Some(2);
    assert_eq!(app.connect(None), None);
    app.selected = None;
    assert_eq!(app.connect(None), None);
}

#[test]
fn connect_goes_through_the_search_outside_normal_mode() {
    let mut other = conn("");
    other.hostname = "db.example.com".to_string();
    let mut app = App::new(vec![conn(""), other]);
    app.app_mode = AppMode::Search;
    app.search_index = vec![1];
    app.selected = Some(0);
    assert_eq!(app.connect(None).unwrap(), vec!["-p", "2222", "deploy@db.example.com"]);
    app.selected = Some(1);
    assert_eq!(app.connect(None), None);
}

#[test]
fn command_is_run_only_where_one_was_asked_for() {
    let mut app = App::new(vec![conn("")]);
    app.run_input = "uptime".to_string();
    assert_eq!(app.launch_command(), None);
    app.app_mode = AppMode::Search;
    assert_eq!(app.launch_command(), None);
    app.app_mode = AppMode::RunCommand;
    assert_eq!(app.launch_command(), Some("uptime".to_string()));
}
