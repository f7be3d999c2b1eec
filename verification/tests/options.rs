use ssh_list::options::{canonical_name_of, forward_flag_of, get_options};
use ssh_list::text::{chars_of, string_of};

#[test]
fn remote_forward_maps_to_local_flag() {
    assert_eq!(get_options("remoteforward", "8080 127.0.0.1:80"), "-L 8080:127.0.0.1:80 ");
}

#[test]
fn local_forward_to_socks_placeholder_keeps_port_only() {
    assert_eq!(get_options("localforward", "1080 [socks]:0"), "-R 1080 ");
}

#[test]
fn local_forward_maps_to_remote_flag() {
    assert_eq!(get_options("localforward", "8080 10.0.0.1:80"), "-R 8080:10.0.0.1:80 ");
}

#[test]
fn remote_forward_to_socks_placeholder_keeps_port_only() {
    assert_eq!(get_options("remoteforward", "1080 [socks]:0"), "-L 1080 ");
}

#[test]
fn forward_with_one_word_has_empty_address() {
    assert_eq!(get_options("localforward", "8080"), "-R 8080: ");
    assert_eq!(get_options("remoteforward", ""), "-L : ");
}

#[test]
fn forward_reads_words_across_any_blanks() {
    assert_eq!(get_options("localforward", "  8080 \t host:1   extra"), "-R 8080:host:1 ");
}

#[test]
fn forward_placeholder_must_be_the_address() {
    assert_eq!(get_options("localforward", "8080 x[socks]:0"), "-R 8080:x[socks]:0 ");
}

#[test]
fn dynamic_forward_takes_the_value_as_it_is() {
    assert_eq!(get_options("dynamicforward", "1337"), "-D 1337 ");
}

#[test]
fn identity_file_maps_to_i() {
    assert_eq!(get_options("identityfile", "~/.ssh/id_ed25519"), "-i ~/.ssh/id_ed25519 ");
}

#[test]
fn proxy_jump_maps_to_j() {
    assert_eq!(get_options("proxyjump", "bastion"), "-J bastion ");
}

#[test]
fn commands_are_quoted() {
    assert_eq!(get_options("localcommand", "echo hi"), "-o LocalCommand='echo hi' ");
    assert_eq!(get_options("proxycommand", "nc %h %p"), "-o ProxyCommand='nc %h %p' ");
    assert_eq!(get_options("remotecommand", "tmux a"), "-o RemoteCommand='tmux a' ");
}

#[test]
fn known_keywords_get_their_canonical_spelling() {
    assert_eq!(get_options("forwardagent", "yes"), "-o ForwardAgent=yes ");
    assert_eq!(get_options("addkeystoagent", "no"), "-o AddKeysToAgent=no ");
    assert_eq!(get_options("xauthlocation", "/usr/bin/xauth"), "-o XAuthLocation=/usr/bin/xauth ");
    assert_eq!(get_options("tcpkeepalive", "yes"), "-o TCPKeepAlive=yes ");
    assert_eq!(get_options("canonicalizepermittedcnames", "none"), "-o CanonicalizePermittedCNAMEs=none ");
}

#[test]
fn unknown_keywords_are_passed_as_given() {
    assert_eq!(get_options("somethingnew", "1"), "-o somethingnew=1 ");
    assert_eq!(get_options("ForwardAgent", "yes"), "-o ForwardAgent=yes ");
    assert_eq!(get_options("", ""), "-o = ");
}

#[test]
fn bespoke_keywords_are_matched_in_lowercase_only() {
    assert_eq!(get_options("IdentityFile", "k"), "-o IdentityFile=k ");
}

#[test]
fn canonical_name_falls_back_to_the_keyword() {
    let known = canonical_name_of(&chars_of("macs"));
    assert_eq!(string_of(&known), "MACs");
    let unknown = canonical_name_of(&chars_of("nothing"));
    assert_eq!(string_of(&unknown), "nothing");
}

#[test]
fn forward_flag_joins_port_and_address() {
    let flag = forward_flag_of("-R ", &chars_of("1 2"));
    assert_eq!(string_of(&flag), "-R 1:2 ");
}
