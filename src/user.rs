use vstd::prelude::*;
use crate::text::{strs, contains_string, remove_string, remove_first};
use crate::channel::add_once;

verus! {

/// A user of the network: its registration data, whether it is an operator, the
/// channels it has joined, its away message, and whether it is connected to this
/// server (a user relayed from another server is not).
#[derive(Debug, Clone)]
pub struct User {
    pub password: String,
    pub nickname: String,
    pub username: String,
    pub hostname: String,
    pub server: String,
    pub realname: String,
    pub is_admin: bool,
    pub local: bool,
    pub channels: Vec<String>,
    pub away_message: Option<String>,
}

/// The abstract content of a [`User`].
pub struct UserView {
    pub password: Seq<char>,
    pub nickname: Seq<char>,
    pub username: Seq<char>,
    pub hostname: Seq<char>,
    pub server: Seq<char>,
    pub realname: Seq<char>,
    pub is_admin: bool,
    pub local: bool,
    pub channels: Seq<Seq<char>>,
    pub away_message: Option<Seq<char>>,
}

impl View for User {
    type V = UserView;

    open spec fn view(&self) -> UserView {
        UserView {
            password: self.password@,
            nickname: self.nickname@,
            username: self.username@,
            hostname: self.hostname@,
            server: self.server@,
            realname: self.realname@,
            is_admin: self.is_admin,
            local: self.local,
            channels: strs(self.channels@),
            away_message: crate::message::opt_view(self.away_message),
        }
    }
}

impl User {
    /// The names of the channels joined.
    pub open spec fn joined(&self) -> Seq<Seq<char>> {
        strs(self.channels@)
    }

    /// Every registration field is filled in.
    pub open spec fn registered(&self) -> bool {
        self.password@.len() > 0 && self.nickname@.len() > 0 && self.username@.len() > 0
            && self.hostname@.len() > 0 && self.server@.len() > 0 && self.realname@.len() > 0
    }

    /// Whether every registration field is filled in.
    pub fn is_registered(&self) -> (r: bool)
        ensures
            r == self.registered(),
    {
        !(self.password.as_str().is_empty() || self.nickname.as_str().is_empty()
            || self.username.as_str().is_empty() || self.hostname.as_str().is_empty()
            || self.server.as_str().is_empty() || self.realname.as_str().is_empty())
    }

    /// A user with every field empty, no channels, not an operator, not away.
    pub fn new(local: bool) -> (r: User)
        ensures
            r.password@.len() == 0,
            r.nickname@.len() == 0,
            r.username@.len() == 0,
            r.hostname@.len() == 0,
            r.server@.len() == 0,
            r.realname@.len() == 0,
            !r.is_admin,
            r.local == local,
            r.channels@.len() == 0,
            r.away_message is None,
    {
        User {
            password: String::new(),
            nickname: String::new(),
            username: String::new(),
            hostname: String::new(),
            server: String::new(),
            realname: String::new(),
            is_admin: false,
            local,
            channels: Vec::new(),
            away_message: None,
        }
    }

    /// Makes the user a server operator.
    pub fn become_admin(&mut self)
        ensures
            *final(self) == (User { is_admin: true, ..*old(self) }),
    {
        self.is_admin = true;
    }

    /// Whether the user has joined that channel.
    pub fn is_in_channel(&self, channel_name: &String) -> (r: bool)
        ensures
            r == self.joined().contains(channel_name@),
    {
        contains_string(&self.channels, channel_name)
    }

    /// Records that the user joined a channel; nothing changes if it already had.
    pub fn add_channel(&mut self, channel_name: &String)
        ensures
            final(self)@ == (UserView { channels: add_once(old(self).joined(), channel_name@), ..old(self)@ }),
    {
        if !self.is_in_channel(channel_name) {
            let ghost before = self.channels@;
            self.channels.push(channel_name.clone());
            assert(strs(self.channels@) =~= strs(before).push(channel_name@));
        }
    }

    /// Records that the user left a channel.
    pub fn leave_channel(&mut self, channel_name: &String)
        ensures
            final(self)@ == (UserView { channels: remove_first(old(self).joined(), channel_name@), ..old(self)@ }),
    {
        remove_string(&mut self.channels, channel_name);
    }

    pub fn set_away_message(&mut self, away_message: Option<String>)
        ensures
            *final(self) == (User { away_message, ..*old(self) }),
    {
        self.away_message = away_message;
    }

    pub fn set_nickname(&mut self, nick: String)
        ensures
            *final(self) == (User { nickname: nick, ..*old(self) }),
    {
        self.nickname = nick;
    }

    pub fn set_server(&mut self, servername: String)
        ensures
            *final(self) == (User { server: servername, ..*old(self) }),
    {
        self.server = servername;
    }

    pub fn set_host(&mut self, host: String)
        ensures
            *final(self) == (User { hostname: host, ..*old(self) }),
    {
        self.hostname = host;
    }

    pub fn set_realname(&mut self, realname: String)
        ensures
            *final(self) == (User { realname, ..*old(self) }),
    {
        self.realname = realname;
    }

    pub fn set_username(&mut self, username: String)
        ensures
            *final(self) == (User { username, ..*old(self) }),
    {
        self.username = username;
    }
}

} // verus!
