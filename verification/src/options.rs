//! The command-line flags of the SSH client that stand for configuration
//! keywords.

use vstd::prelude::*;
use crate::text::{chars_of, is_text, push_chars, push_text, string_of, tokens, tokens_of};

verus! {

/// The keywords that have a canonical spelling for `-o`, each with that
/// spelling.
pub open spec fn option_names() -> Seq<(Seq<char>, Seq<char>)> {
    seq![
        ("addkeystoagent"@, "AddKeysToAgent"@),
        ("addressfamily"@, "AddressFamily"@),
        ("batchmode"@, "BatchMode"@),
        ("bindaddress"@, "BindAddress"@),
        ("bindinterface"@, "BindInterface"@),
        ("canonicaldomains"@, "CanonicalDomains"@),
        ("canonicalizefallbacklocal"@, "CanonicalizeFallbackLocal"@),
        ("canonicalizehostname"@, "CanonicalizeHostname"@),
        ("canonicalizemaxdots"@, "CanonicalizeMaxDots"@),
        ("canonicalizepermittedcnames"@, "CanonicalizePermittedCNAMEs"@),
        ("casignaturealgorithms"@, "CASignatureAlgorithms"@),
        ("certificatefile"@, "CertificateFile"@),
        ("channeltimeout"@, "ChannelTimeout"@),
        ("checkhostip"@, "CheckHostIP"@),
        ("ciphers"@, "Ciphers"@),
        ("clearallforwardings"@, "ClearAllForwardings"@),
        ("compression"@, "Compression"@),
        ("connectionattempts"@, "ConnectionAttempts"@),
        ("connecttimeout"@, "ConnectTimeout"@),
        ("controlmaster"@, "ControlMaster"@),
        ("controlpath"@, "ControlPath"@),
        ("controlpersist"@, "ControlPersist"@),
        ("enableescapecommandline"@, "EnableEscapeCommandline"@),
        ("enablesshkeysign"@, "EnableSSHKeysign"@),
        ("escapechar"@, "EscapeChar"@),
        ("exitonforwardfailure"@, "ExitOnForwardFailure"@),
        ("fingerprinthash"@, "FingerprintHash"@),
        ("forkafterauthentication"@, "ForkAfterAuthentication"@),
        ("forwardagent"@, "ForwardAgent"@),
        ("forwardx11"@, "ForwardX11"@),
        ("forwardx11timeout"@, "ForwardX11Timeout"@),
        ("forwardx11trusted"@, "ForwardX11Trusted"@),
        ("gatewayports"@, "GatewayPorts"@),
        ("globalknownhostsfile"@, "GlobalKnownHostsFile"@),
        ("gssapiauthentication"@, "GSSAPIAuthentication"@),
        ("gssapidelegatecredentials"@, "GSSAPIDelegateCredentials"@),
        ("hashknownhosts"@, "HashKnownHosts"@),
        ("hostbasedacceptedalgorithms"@, "HostbasedAcceptedAlgorithms"@),
        ("hostbasedauthentication"@, "HostbasedAuthentication"@),
        ("hostkeyalgorithms"@, "HostKeyAlgorithms"@),
        ("hostkeyalias"@, "HostKeyAlias"@),
        ("identitiesonly"@, "IdentitiesOnly"@),
        ("identityagent"@, "IdentityAgent"@),
        ("ignoreunknown"@, "IgnoreUnknown"@),
        ("ipqos"@, "IPQoS"@),
        ("kbdinteractiveauthentication"@, "KbdInteractiveAuthentication"@),
        ("kbdinteractivedevices"@, "KbdInteractiveDevices"@),
        ("kexalgorithms"@, "KexAlgorithms"@),
        ("knownhostscommand"@, "KnownHostsCommand"@),
        ("loglevel"@, "LogLevel"@),
        ("logverbose"@, "LogVerbose"@),
        ("macs"@, "MACs"@),
        ("nohostauthenticationforlocalhost"@, "NoHostAuthenticationForLocalhost"@),
        ("numberofpasswordprompts"@, "NumberOfPasswordPrompts"@),
        ("obscurekeystroketiming"@, "ObscureKeystrokeTiming"@),
        ("passwordauthentication"@, "PasswordAuthentication"@),
        ("permitlocalcommand"@, "PermitLocalCommand"@),
        ("permitremoteopen"@, "PermitRemoteOpen"@),
        ("pkcs11provider"@, "PKCS11Provider"@),
        ("preferredauthentications"@, "PreferredAuthentications"@),
        ("proxyusefdpass"@, "ProxyUseFdpass"@),
        ("pubkeyacceptedalgorithms"@, "PubkeyAcceptedAlgorithms"@),
        ("pubkeyauthentication"@, "PubkeyAuthentication"@),
        ("refuseconnection"@, "RefuseConnection"@),
        ("rekeylimit"@, "RekeyLimit"@),
        ("requesttty"@, "RequestTTY"@),
        ("requiredrsasize"@, "RequiredRSASize"@),
        ("revokedhostkeys"@, "RevokedHostKeys"@),
        ("securitykeyprovider"@, "SecurityKeyProvider"@),
        ("sendenv"@, "SendEnv"@),
        ("serveralivecountmax"@, "ServerAliveCountMax"@),
        ("serveraliveinterval"@, "ServerAliveInterval"@),
        ("sessiontype"@, "SessionType"@),
        ("setenv"@, "SetEnv"@),
        ("stdinnull"@, "StdinNull"@),
        ("streamlocalbindmask"@, "StreamLocalBindMask"@),
        ("streamlocalbindunlink"@, "StreamLocalBindUnlink"@),
        ("stricthostkeychecking"@, "StrictHostKeyChecking"@),
        ("syslogfacility"@, "SyslogFacility"@),
        ("tag"@, "Tag"@),
        ("tcpkeepalive"@, "TCPKeepAlive"@),
        ("tunnel"@, "Tunnel"@),
        ("tunneldevice"@, "TunnelDevice"@),
        ("updatehostkeys"@, "UpdateHostKeys"@),
        ("userknownhostsfile"@, "UserKnownHostsFile"@),
        ("verifyhostkeydns"@, "VerifyHostKeyDNS"@),
        ("versionaddendum"@, "VersionAddendum"@),
        ("visualhostkey"@, "VisualHostKey"@),
        ("warnweakcrypto"@, "WarnWeakCrypto"@),
        ("xauthlocation"@, "XAuthLocation"@),
    ]
}

/// The canonical spelling that `table` gives for `key`, looking from row `i`
/// on; the first matching row decides.
pub open spec fn lookup_from(table: Seq<(Seq<char>, Seq<char>)>, key: Seq<char>, i: int) -> Option<
    Seq<char>,
>
    decreases table.len() - i,
{
    if i < 0 || i >= table.len() {
        None
    } else if table[i].0 == key {
        Some(table[i].1)
    } else {
        lookup_from(table, key, i + 1)
    }
}

/// The name under which `key` is passed to `-o`: its canonical spelling where
/// the table has one, the keyword as given otherwise.
pub open spec fn canonical_name(key: Seq<char>) -> Seq<char> {
    match lookup_from(option_names(), key, 0) {
        Some(name) => name,
        None => key,
    }
}

/// The first word of a forwarding value: the listening port.
pub open spec fn forward_port(value: Seq<char>) -> Seq<char> {
    let words = tokens(value);
    if words.len() > 0 {
        words[0]
    } else {
        Seq::empty()
    }
}

/// The second word of a forwarding value: the address forwarded to.
pub open spec fn forward_address(value: Seq<char>) -> Seq<char> {
    let words = tokens(value);
    if words.len() > 1 {
        words[1]
    } else {
        Seq::empty()
    }
}

/// The fragment for a forwarding keyword: `flag`, the port and the address,
/// or the port alone where the address is the dynamic placeholder
/// `[socks]:0`.
pub open spec fn forward_flag(flag: Seq<char>, value: Seq<char>) -> Seq<char> {
    if forward_address(value) == "[socks]:0"@ {
        flag + forward_port(value) + " "@
    } else {
        flag + forward_port(value) + ":"@ + forward_address(value) + " "@
    }
}

/// The command-line fragment that stands for one keyword and its value.
pub open spec fn option_flag(key: Seq<char>, value: Seq<char>) -> Seq<char> {
    if key == "localforward"@ {
        forward_flag("-R "@, value)
    } else if key == "remoteforward"@ {
        forward_flag("-L "@, value)
    } else if key == "dynamicforward"@ {
        "-D "@ + value + " "@
    } else if key == "identityfile"@ {
        "-i "@ + value + " "@
    } else if key == "localcommand"@ {
        "-o LocalCommand='"@ + value + "' "@
    } else if key == "proxycommand"@ {
        "-o ProxyCommand='"@ + value + "' "@
    } else if key == "proxyjump"@ {
        "-J "@ + value + " "@
    } else if key == "remotecommand"@ {
        "-o RemoteCommand='"@ + value + "' "@
    } else {
        "-o "@ + canonical_name(key) + "="@ + value + " "@
    }
}

/// The rows of the keyword table.
fn name_table() -> (table: Vec<(&'static str, &'static str)>)
    ensures
        table@.len() == option_names().len(),
        forall|i: int|
            0 <= i < table@.len() ==> (#[trigger] table@[i]).0@ == option_names()[i].0
                && table@[i].1@ == option_names()[i].1,
{
    vec![
        ("addkeystoagent", "AddKeysToAgent"),
        ("addressfamily", "AddressFamily"),
        ("batchmode", "BatchMode"),
        ("bindaddress", "BindAddress"),
        ("bindinterface", "BindInterface"),
        ("canonicaldomains", "CanonicalDomains"),
        ("canonicalizefallbacklocal", "CanonicalizeFallbackLocal"),
        ("canonicalizehostname", "CanonicalizeHostname"),
        ("canonicalizemaxdots", "CanonicalizeMaxDots"),
        ("canonicalizepermittedcnames", "CanonicalizePermittedCNAMEs"),
        ("casignaturealgorithms", "CASignatureAlgorithms"),
        ("certificatefile", "CertificateFile"),
        ("channeltimeout", "ChannelTimeout"),
        ("checkhostip", "CheckHostIP"),
        ("ciphers", "Ciphers"),
        ("clearallforwardings", "ClearAllForwardings"),
        ("compression", "Compression"),
        ("connectionattempts", "ConnectionAttempts"),
        ("connecttimeout", "ConnectTimeout"),
        ("controlmaster", "ControlMaster"),
        ("controlpath", "ControlPath"),
        ("controlpersist", "ControlPersist"),
        ("enableescapecommandline", "EnableEscapeCommandline"),
        ("enablesshkeysign", "EnableSSHKeysign"),
        ("escapechar", "EscapeChar"),
        ("exitonforwardfailure", "ExitOnForwardFailure"),
        ("fingerprinthash", "FingerprintHash"),
        ("forkafterauthentication", "ForkAfterAuthentication"),
        ("forwardagent", "ForwardAgent"),
        ("forwardx11", "ForwardX11"),
        ("forwardx11timeout", "ForwardX11Timeout"),
        ("forwardx11trusted", "ForwardX11Trusted"),
        ("gatewayports", "GatewayPorts"),
        ("globalknownhostsfile", "GlobalKnownHostsFile"),
        ("gssapiauthentication", "GSSAPIAuthentication"),
        ("gssapidelegatecredentials", "GSSAPIDelegateCredentials"),
        ("hashknownhosts", "HashKnownHosts"),
        ("hostbasedacceptedalgorithms", "HostbasedAcceptedAlgorithms"),
        ("hostbasedauthentication", "HostbasedAuthentication"),
        ("hostkeyalgorithms", "HostKeyAlgorithms"),
        ("hostkeyalias", "HostKeyAlias"),
        ("identitiesonly", "IdentitiesOnly"),
        ("identityagent", "IdentityAgent"),
        ("ignoreunknown", "IgnoreUnknown"),
        ("ipqos", "IPQoS"),
        ("kbdinteractiveauthentication", "KbdInteractiveAuthentication"),
        ("kbdinteractivedevices", "KbdInteractiveDevices"),
        ("kexalgorithms", "KexAlgorithms"),
        ("knownhostscommand", "KnownHostsCommand"),
        ("loglevel", "LogLevel"),
        ("logverbose", "LogVerbose"),
        ("macs", "MACs"),
        ("nohostauthenticationforlocalhost", "NoHostAuthenticationForLocalhost"),
        ("numberofpasswordprompts", "NumberOfPasswordPrompts"),
        ("obscurekeystroketiming", "ObscureKeystrokeTiming"),
        ("passwordauthentication", "PasswordAuthentication"),
        ("permitlocalcommand", "PermitLocalCommand"),
        ("permitremoteopen", "PermitRemoteOpen"),
        ("pkcs11provider", "PKCS11Provider"),
        ("preferredauthentications", "PreferredAuthentications"),
        ("proxyusefdpass", "ProxyUseFdpass"),
        ("pubkeyacceptedalgorithms", "PubkeyAcceptedAlgorithms"),
        ("pubkeyauthentication", "PubkeyAuthentication"),
        ("refuseconnection", "RefuseConnection"),
        ("rekeylimit", "RekeyLimit"),
        ("requesttty", "RequestTTY"),
        ("requiredrsasize", "RequiredRSASize"),
        ("revokedhostkeys", "RevokedHostKeys"),
        ("securitykeyprovider", "SecurityKeyProvider"),
        ("sendenv", "SendEnv"),
        ("serveralivecountmax", "ServerAliveCountMax"),
        ("serveraliveinterval", "ServerAliveInterval"),
        ("sessiontype", "SessionType"),
        ("setenv", "SetEnv"),
        ("stdinnull", "StdinNull"),
        ("streamlocalbindmask", "StreamLocalBindMask"),
        ("streamlocalbindunlink", "StreamLocalBindUnlink"),
        ("stricthostkeychecking", "StrictHostKeyChecking"),
        ("syslogfacility", "SyslogFacility"),
        ("tag", "Tag"),
        ("tcpkeepalive", "TCPKeepAlive"),
        ("tunnel", "Tunnel"),
        ("tunneldevice", "TunnelDevice"),
        ("updatehostkeys", "UpdateHostKeys"),
        ("userknownhostsfile", "UserKnownHostsFile"),
        ("verifyhostkeydns", "VerifyHostKeyDNS"),
        ("versionaddendum", "VersionAddendum"),
        ("visualhostkey", "VisualHostKey"),
        ("warnweakcrypto", "WarnWeakCrypto"),
        ("xauthlocation", "XAuthLocation"),
    ]
}

/// The name under which `key` is passed to `-o`.
pub fn canonical_name_of(key: &[char]) -> (name: Vec<char>)
    ensures
        name@ == canonical_name(key@),
{
    let table = name_table();
    let mut i: usize = 0;
    while i < table.len()
        invariant
            i <= table.len(),
            table@.len() == option_names().len(),
            forall|k: int|
                0 <= k < table@.len() ==> (#[trigger] table@[k]).0@ == option_names()[k].0
                    && table@[k].1@ == option_names()[k].1,
            lookup_from(option_names(), key@, i as int) == lookup_from(option_names(), key@, 0),
        decreases table.len() - i,
    {
        if is_text(key, table[i].0) {
            return chars_of(table[i].1);
        }
        i += 1;
    }
    let mut name: Vec<char> = Vec::new();
    push_chars(&mut name, key);
    name
}

/// The fragment for a forwarding keyword.
pub fn forward_flag_of(flag: &str, value: &[char]) -> (out: Vec<char>)
    ensures
        out@ == forward_flag(flag@, value@),
{
    let words = tokens_of(value);
    let empty: Vec<char> = Vec::new();
    let port: &Vec<char> = if words.len() > 0 {
        &words[0]
    } else {
        &empty
    };
    let address: &Vec<char> = if words.len() > 1 {
        &words[1]
    } else {
        &empty
    };
    let mut out: Vec<char> = chars_of(flag);
    push_chars(&mut out, port.as_slice());
    if !is_text(address.as_slice(), "[socks]:0") {
        push_text(&mut out, ":");
        push_chars(&mut out, address.as_slice());
    }
    push_text(&mut out, " ");
    out
}

/// `head`, then `value`, then `tail`.
fn wrap(head: &str, value: &[char], tail: &str) -> (out: Vec<char>)
    ensures
        out@ == head@ + value@ + tail@,
{
    let mut out: Vec<char> = chars_of(head);
    push_chars(&mut out, value);
    push_text(&mut out, tail);
    out
}

/// The command-line fragment that stands for the keyword `option` with the
/// value `value`. Every fragment ends in a space, so fragments can be joined
/// as they are.
pub fn get_options(option: &str, value: &str) -> (flag: String)
    ensures
        flag@ == option_flag(option@, value@),
{
    let key = chars_of(option);
    let val = chars_of(value);
    let key = key.as_slice();
    let val = val.as_slice();
    let out = if is_text(key, "localforward") {
        forward_flag_of("-R ", val)
    } else if is_text(key, "remoteforward") {
        forward_flag_of("-L ", val)
    } else if is_text(key, "dynamicforward") {
        wrap("-D ", val, " ")
    } else if is_text(key, "identityfile") {
        wrap("-i ", val, " ")
    } else if is_text(key, "localcommand") {
        wrap("-o LocalCommand='", val, "' ")
    } else if is_text(key, "proxycommand") {
        wrap("-o ProxyCommand='", val, "' ")
    } else if is_text(key, "proxyjump") {
        wrap("-J ", val, " ")
    } else if is_text(key, "remotecommand") {
        wrap("-o RemoteCommand='", val, "' ")
    } else {
        let name = canonical_name_of(key);
        let mut out = chars_of("-o ");
        push_chars(&mut out, name.as_slice());
        push_text(&mut out, "=");
        push_chars(&mut out, val);
        push_text(&mut out, " ");
        out
    };
    string_of(out.as_slice())
}

} // verus!
