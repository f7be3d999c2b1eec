use ssh_list::resolve::{
    baseline_alias, client_args, judge_reply, parse_from_ssh, parse_output, record_pair,
    split_line, Attempt, SSHConfigConnection, Verdict,
};
use ssh_list::text::{chars_of, string_of};

fn pair(k: &str, v: &str) -> (String, String) {
    (k.to_string(), v.to_string())
}

fn split(line: &str) -> Option<(String, String)> {
    split_line(&chars_of(line)).map(|(k, v)| (string_of(&k), string_of(&v)))
}

#[test]
fn output_is_read_line_by_line() {
    let conn = parse_output(
        "foo",
        "host foo\nuser alice\nhostname example.com\nport 2222\nforwardagent yes\nidentityfile ~/.ssh/id_rsa\n",
    );
    assert_eq!(
        conn,
        SSHConfigConnection {
            server_name: "foo".to_string(),
            username: "alice".to_string(),
            hostname: "example.com".to_string(),
            port: "2222".to_string(),
            options: vec![pair("forwardagent", "yes"), pair("identityfile", "~/.ssh/id_rsa")],
        }
    );
}

#[test]
fn name_asked_for_stands_until_the_client_names_the_host() {
    let conn = parse_output("asked", "user bob\n");
    assert_eq!(conn.server_name, "asked");
    assert_eq!(conn.username, "bob");
    assert_eq!(conn.hostname, "");
    assert_eq!(conn.port, "");
    assert!(conn.options.is_empty());
    let named = parse_output("asked", "host other\n");
    assert_eq!(named.server_name, "other");
}

#[test]
fn empty_output_gives_a_blank_record() {
    let conn = parse_output("x", "");
    assert_eq!(
        conn,
        SSHConfigConnection {
            server_name: "x".to_string(),
            username: String::new(),
            hostname: String::new(),
            port: String::new(),
            options: vec![],
        }
    );
}

#[test]
fn keywords_are_lowercased_and_values_kept() {
    let conn = parse_output("x", "ForwardAgent Yes\nPORT 22\nUser Me\n");
    assert_eq!(conn.options, vec![pair("forwardagent", "Yes")]);
    assert_eq!(conn.port, "22");
    assert_eq!(conn.username, "Me");
}

#[test]
fn later_lines_replace_the_four_settings_and_repeat_the_others() {
    let conn = parse_output("x", "port 1\nport 2\nsendenv A\nsendenv B\n");
    assert_eq!(conn.port, "2");
    assert_eq!(conn.options, vec![pair("sendenv", "A"), pair("sendenv", "B")]);
}

#[test]
fn lines_without_a_value_are_passed_over() {
    let conn = parse_output("x", "justakeyword\n\n   \nport 22\r\n");
    assert_eq!(conn.port, "22");
    assert!(conn.options.is_empty());
}

#[test]
fn value_starts_after_the_blanks_that_follow_the_keyword() {
    assert_eq!(split("localforward 8080 [::1]:80"), Some(pair("localforward", "8080 [::1]:80")));
    assert_eq!(split("  port   22  "), Some(pair("port", "22")));
    assert_eq!(split("setenv\tA=1 B=2"), Some(pair("setenv", "A=1 B=2")));
    assert_eq!(split("lonely"), None);
    assert_eq!(split(""), None);
    assert_eq!(split("  \t"), None);
}

#[test]
fn recording_a_pair_sets_a_field_or_adds_an_option() {
    let mut conn = parse_output("x", "");
    record_pair(&mut conn, &chars_of("hostname"), &chars_of("h.example"));
    record_pair(&mut conn, &chars_of("user"), &chars_of("u"));
    record_pair(&mut conn, &chars_of("port"), &chars_of("7"));
    record_pair(&mut conn, &chars_of("host"), &chars_of("n"));
    record_pair(&mut conn, &chars_of("compression"), &chars_of("yes"));
    record_pair(&mut conn, &chars_of("Port"), &chars_of("8"));
    assert_eq!(conn.server_name, "n");
    assert_eq!(conn.username, "u");
    assert_eq!(conn.hostname, "h.example");
    assert_eq!(conn.port, "7");
    assert_eq!(conn.options, vec![pair("compression", "yes"), pair("Port", "8")]);
}

#[test]
fn baseline_alias_is_the_sentinel() {
    assert_eq!(baseline_alias(), "default_output");
}

#[test]
fn client_is_asked_with_the_dump_flag() {
    assert_eq!(client_args("foo", Attempt::Plain), vec!["-G", "foo"]);
    assert_eq!(client_args("foo", Attempt::WithCommand), vec!["-G", "foo", "uptime"]);
}

#[test]
fn reply_is_accepted_unless_the_client_could_not_fork() {
    assert_eq!(judge_reply(Attempt::Plain, Some("")), Verdict::Accept);
    assert_eq!(judge_reply(Attempt::Plain, Some("warning: something")), Verdict::Accept);
    assert_eq!(judge_reply(Attempt::Plain, Some("ssh: Cannot fork into background")), Verdict::Retry);
    assert_eq!(judge_reply(Attempt::WithCommand, Some("Cannot fork")), Verdict::Accept);
    assert_eq!(judge_reply(Attempt::WithCommand, Some("")), Verdict::Accept);
}

#[test]
fn client_that_cannot_be_run_is_given_up() {
    assert_eq!(judge_reply(Attempt::Plain, None), Verdict::GiveUp);
    assert_eq!(judge_reply(Attempt::WithCommand, None), Verdict::GiveUp);
}

#[test]
fn unanswered_aliases_do_not_stop_the_others() {
    let answers = vec![
        ("a".to_string(), Some("port 1\n".to_string())),
        ("b".to_string(), None),
        ("c".to_string(), Some("port 3\n".to_string())),
    ];
    let mut sshconfig = vec![parse_output("first", "")];
    parse_from_ssh(&answers, &mut sshconfig);
    assert_eq!(sshconfig.len(), 3);
    assert_eq!(sshconfig[0].server_name, "first");
    assert_eq!(sshconfig[1].server_name, "a");
    assert_eq!(sshconfig[1].port, "1");
    assert_eq!(sshconfig[2].server_name, "c");
    assert_eq!(sshconfig[2].port, "3");
}

#[test]
fn no_answers_add_nothing() {
    let mut sshconfig: Vec<SSHConfigConnection> = Vec::new();
    parse_from_ssh(&Vec::new(), &mut sshconfig);
    assert!(sshconfig.is_empty());
}
