//! Connection records: what the store keeps for one SSH endpoint.

use vstd::prelude::*;

verus! {

/// One stored endpoint profile.
#[derive(Clone, Debug, PartialEq, Eq)]
pub struct SSHConnection {
    pub server_name: String,
    pub group_name: String,
    pub username: String,
    pub hostname: String,
    pub port: String,
    pub options: String,
}

/// What a connection record says, as plain text.
pub struct ConnectionView {
    pub server_name: Seq<char>,
    pub group_name: Seq<char>,
    pub username: Seq<char>,
    pub hostname: Seq<char>,
    pub port: Seq<char>,
    pub options: Seq<char>,
}

impl View for SSHConnection {
    type V = ConnectionView;

    open spec fn view(&self) -> ConnectionView {
        ConnectionView {
            server_name: self.server_name@,
            group_name: self.group_name@,
            username: self.username@,
            hostname: self.hostname@,
            port: self.port@,
            options: self.options@,
        }
    }
}

/// The views of a run of connection records.
pub open spec fn connection_views(v: Seq<SSHConnection>) -> Seq<ConnectionView> {
    v.map_values(|c: SSHConnection| c@)
}

impl SSHConnection {
    /// The six fields in the order of the table's columns: name, group,
    /// user, host, port, options.
    pub fn ref_array(&self) -> (cells: [&String; 6])
        ensures
            cells@ == seq![
                &self.server_name,
                &self.group_name,
                &self.username,
                &self.hostname,
                &self.port,
                &self.options,
            ],
    {
        [
            &self.server_name,
            &self.group_name,
            &self.username,
            &self.hostname,
            &self.port,
            &self.options,
        ]
    }

    /// A record that says the same as this one.
    pub fn duplicate(&self) -> (copy: SSHConnection)
        ensures
            copy@ == self@,
    {
        SSHConnection {
            server_name: self.server_name.clone(),
            group_name: self.group_name.clone(),
            username: self.username.clone(),
            hostname: self.hostname.clone(),
            port: self.port.clone(),
            options: self.options.clone(),
        }
    }
}

} // verus!
