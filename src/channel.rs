use vstd::prelude::*;
use vstd::string::StringExecFns;
use crate::channel_modes::ChannelModes;
use crate::message::{InvalidMessageError, Message, MessageView, parse_line, parse_spec};
use crate::replies::{
    prefixed_join, err_need_more_params, err_need_more_params_v, error_no_such_nick,
    error_no_such_nick_v, rpl_banlist, rpl_banlist_v, rpl_end_of_ban_list, rpl_end_of_ban_list_v,
    err_key_set, err_key_set_v, err_unknown_mode, err_unknown_mode_v,
};
use crate::text::{
    strs, contains_string, remove_string, remove_first, split_char, split_spec, chars_of,
    string_of_range, concat, ends_with, ends_with_chars, parse_usize, usize_of, usize_to_string,
};

verus! {

/// A named group of users with its members, operators, topic, bans, voiced users,
/// member limit, key and mode flags.
#[derive(Debug, Clone)]
pub struct Channel {
    pub name: String,
    pub users: Vec<String>,
    pub topic: Option<String>,
    pub admins: Vec<String>,
    pub mode: ChannelModes,
    pub limit: Option<usize>,
    pub ban_masks: Vec<String>,
    pub can_speak_users: Vec<String>,
    pub password: Option<String>,
}

/// Every element of `a` is an element of `b`.
pub open spec fn subset_of(a: Seq<Seq<char>>, b: Seq<Seq<char>>) -> bool {
    forall|x: Seq<char>| a.contains(x) ==> b.contains(x)
}

/// The list written for a sequence of names: `.` when it is empty, else each
/// name preceded by a comma.
pub open spec fn dotted_list(v: Seq<Seq<char>>) -> Seq<char> {
    if v.len() == 0 { "."@ } else { prefixed_join(v, ","@) }
}

/// The names read back from a list written with a leading comma: the first
/// character is dropped and the rest split at commas.
pub open spec fn read_list(list: Seq<char>) -> Seq<Seq<char>> {
    split_spec(list.drop_first(), ',')
}

/// `s` with `x` appended unless it already holds it.
pub open spec fn add_once(s: Seq<Seq<char>>, x: Seq<char>) -> Seq<Seq<char>> {
    if s.contains(x) { s } else { s.push(x) }
}

impl Channel {
    /// Operators and voiced users are all members.
    pub open spec fn wf(&self) -> bool {
        &&& subset_of(strs(self.admins@), strs(self.users@))
        &&& subset_of(strs(self.can_speak_users@), strs(self.users@))
    }

    pub open spec fn members(&self) -> Seq<Seq<char>> {
        strs(self.users@)
    }

    pub open spec fn operators(&self) -> Seq<Seq<char>> {
        strs(self.admins@)
    }

    pub open spec fn speakers(&self) -> Seq<Seq<char>> {
        strs(self.can_speak_users@)
    }

    pub open spec fn bans(&self) -> Seq<Seq<char>> {
        strs(self.ban_masks@)
    }

    /// A new channel of that name: no members, no topic, no bans, no limit, no key,
    /// every flag off.
    pub fn new(name: &String) -> (r: Channel)
        ensures
            r.name@ == name@,
            r.users@.len() == 0,
            r.topic.is_none(),
            r.admins@.len() == 0,
            r.mode == ChannelModes::none(),
            r.limit.is_none(),
            r.ban_masks@.len() == 0,
            r.can_speak_users@.len() == 0,
            r.password.is_none(),
            r.wf(),
    {
        Channel {
            name: name.clone(),
            users: Vec::new(),
            topic: None,
            admins: Vec::new(),
            mode: ChannelModes::new(),
            limit: None,
            ban_masks: Vec::new(),
            can_speak_users: Vec::new(),
            password: None,
        }
    }
}

/// Each element of `v` preceded by a comma.
fn comma_list(v: &Vec<String>) -> (r: String)
    ensures
        r@ == prefixed_join(strs(v@), ","@),
{
    let mut list = String::new();
    let mut i: usize = 0;
    while i < v.len()
        invariant
            i <= v@.len(),
            list@ == prefixed_join(strs(v@).take(i as int), ","@),
        decreases v@.len() - i,
    {
        let ghost before = list@;
        list.append(",");
        list.append(v[i].as_str());
        let ghost ns = strs(v@);
        assert(ns.take(i + 1).drop_last() =~= ns.take(i as int));
        assert(list@ =~= before + ","@ + ns.take(i + 1).last());
        i = i + 1;
    }
    assert(strs(v@).take(v@.len() as int) =~= strs(v@));
    list
}

/// The names in `list` after its first character, split at commas.
pub(crate) fn read_comma_list(list: &String) -> (r: Vec<String>)
    requires
        list@.len() > 0,
    ensures
        strs(r@) == read_list(list@),
{
    let chars = chars_of(list.as_str());
    let rest = string_of_range(&chars, 1, chars.len());
    assert(rest@ =~= list@.drop_first());
    split_char(rest.as_str(), ',')
}

/// Whether the first character of `s` is `c`.
fn starts_with_char(s: &String, c: char) -> (r: bool)
    ensures
        r == (s@.len() > 0 && s@[0] == c),
{
    let chars = chars_of(s.as_str());
    chars.len() > 0 && chars[0] == c
}

impl Channel {
    /// The members, each preceded by a comma.
    pub fn get_users_list(&self) -> (r: String)
        ensures
            r@ == prefixed_join(self.members(), ","@),
    {
        comma_list(&self.users)
    }

    /// Replaces the members by those read from a comma-led list.
    pub fn set_users(&mut self, list: String)
        requires
            list@.len() > 0,
        ensures
            final(self)@ == (ChannelView { users: read_list(list@), ..old(self)@ }),
    {
        self.users = read_comma_list(&list);
    }

    /// The operators, each preceded by a comma.
    pub fn get_admins_list(&self) -> (r: String)
        ensures
            r@ == prefixed_join(self.operators(), ","@),
    {
        comma_list(&self.admins)
    }

    /// Replaces the operators by those read from a comma-led list.
    pub fn set_admins(&mut self, list: String)
        requires
            list@.len() > 0,
        ensures
            final(self)@ == (ChannelView { admins: read_list(list@), ..old(self)@ }),
    {
        self.admins = read_comma_list(&list);
    }

    /// The ban masks as a comma-led list, or `.` when there are none.
    pub fn get_ban_list(&self) -> (r: String)
        ensures
            r@ == dotted_list(self.bans()),
    {
        if self.ban_masks.len() == 0 {
            let r = String::from_str(".");
            proof { reveal_strlit("."); }
            r
        } else {
            comma_list(&self.ban_masks)
        }
    }

    /// Replaces the ban masks by those of a comma-led list; a list starting with
    /// `.` leaves them as they are.
    pub fn set_ban_list(&mut self, list: String)
        requires
            list@.len() > 0,
        ensures
            final(self)@ == (ChannelView { bans: if list@[0] == '.' { old(self)@.bans } else { read_list(list@) }, ..old(self)@ }),
    {
        if !starts_with_char(&list, '.') {
            self.ban_masks = read_comma_list(&list);
        }
    }

    /// The voiced users as a comma-led list, or `.` when there are none.
    pub fn get_can_speak_users_list(&self) -> (r: String)
        ensures
            r@ == dotted_list(self.speakers()),
    {
        if self.can_speak_users.len() == 0 {
            let r = String::from_str(".");
            proof { reveal_strlit("."); }
            r
        } else {
            comma_list(&self.can_speak_users)
        }
    }

    /// Replaces the voiced users by those of a comma-led list; a list starting
    /// with `.` leaves them as they are.
    pub fn set_speak_users(&mut self, list: String)
        requires
            list@.len() > 0,
        ensures
            final(self)@ == (ChannelView { speakers: if list@[0] == '.' { old(self)@.speakers } else { read_list(list@) }, ..old(self)@ }),
    {
        if !starts_with_char(&list, '.') {
            self.can_speak_users = read_comma_list(&list);
        }
    }

    /// The topic, or `.` when there is none.
    pub fn get_topic_option(&self) -> (r: String)
        ensures
            r@ == (match self.topic { Some(t) => t@, None => "."@ }),
    {
        match &self.topic {
            Some(t) => t.clone(),
            None => {
                let r = String::from_str(".");
                proof { reveal_strlit("."); }
                r
            },
        }
    }

    /// Sets the topic; a value starting with `.` clears it.
    pub fn set_topic(&mut self, topic: String)
        ensures
            final(self)@ == (ChannelView { topic: if topic@.len() > 0 && topic@[0] == '.' { None } else { Some(topic@) }, ..old(self)@ }),
    {
        if !starts_with_char(&topic, '.') {
            self.topic = Some(topic);
        } else {
            self.topic = None;
        }
    }

    /// The member limit in decimal, or `.` when there is none.
    pub fn get_limit_option(&self) -> (r: String)
        ensures
            self.limit is None ==> r@ == "."@,
            self.limit is Some ==> r@ == crate::text::decimal(self.limit->0 as nat),
    {
        match self.limit {
            Some(l) => usize_to_string(l),
            None => {
                let r = String::from_str(".");
                proof { reveal_strlit("."); }
                r
            },
        }
    }

    /// Sets the member limit to the number `limit` reads as, or clears it when it
    /// reads as none.
    pub fn set_limit(&mut self, limit: String)
        ensures
            final(self)@ == (ChannelView { limit: usize_of(limit@), ..old(self)@ }),
    {
        self.limit = parse_usize(limit.as_str());
    }

    /// The key, or `.` when there is none.
    pub fn get_password_option(&self) -> (r: String)
        ensures
            r@ == (match self.password { Some(t) => t@, None => "."@ }),
    {
        match &self.password {
            Some(t) => t.clone(),
            None => {
                let r = String::from_str(".");
                proof { reveal_strlit("."); }
                r
            },
        }
    }

    /// Sets the key; a value starting with `.` clears it.
    pub fn set_password(&mut self, password: String)
        ensures
            final(self)@ == (ChannelView { password: if password@.len() > 0 && password@[0] == '.' { None } else { Some(password@) }, ..old(self)@ }),
    {
        if !starts_with_char(&password, '.') {
            self.password = Some(password);
        } else {
            self.password = None;
        }
    }
}


/// Whether a ban pattern matches one part of a user's address: `*` and the empty
/// pattern match anything, `*suffix` matches what ends with `suffix`, anything
/// else matches itself.
pub open spec fn pattern_matches(pattern: Seq<char>, query: Seq<char>) -> bool {
    if pattern == "*"@ || pattern.len() == 0 {
        true
    } else if pattern[0] == '*' {
        ends_with(query, pattern.drop_first())
    } else {
        pattern == query
    }
}

/// Whether the mask `!user@host` bans that user name and host name. The user
/// pattern is the text before the first `@` without its first character, the
/// host pattern the text between the first `@` and the next. A mask without `@`,
/// or with nothing before it, bans nobody.
pub open spec fn mask_bans(mask: Seq<char>, username: Seq<char>, hostname: Seq<char>) -> bool {
    let parts = split_spec(mask, '@');
    parts.len() >= 2 && parts[0].len() > 0
        && pattern_matches(parts[0].drop_first(), username)
        && pattern_matches(parts[1], hostname)
}

/// Checks one part of a user's address against one part of a ban mask.
pub fn match_ban_expression(mask_part: &str, query_part: &String) -> (r: bool)
    ensures
        r == pattern_matches(mask_part@, query_part@),
{
    let chars = chars_of(mask_part);
    proof { reveal_strlit("*"); }
    if chars.len() == 0 || (chars.len() == 1 && chars[0] == '*') {
        assert(chars.len() == 1 && chars[0] == '*' ==> mask_part@ =~= "*"@);
        return true;
    }
    if chars[0] == '*' {
        let mut suffix: Vec<char> = Vec::new();
        let mut i: usize = 1;
        while i < chars.len()
            invariant
                1 <= i <= chars@.len(),
                suffix@ == chars@.subrange(1, i as int),
            decreases chars@.len() - i,
        {
            suffix.push(chars[i]);
            i = i + 1;
        }
        assert(suffix@ =~= mask_part@.drop_first());
        ends_with_chars(query_part.as_str(), &suffix)
    } else {
        assert(mask_part@ != "*"@);
        let m = String::from_str(mask_part);
        m == *query_part
    }
}

/// Whether the ban mask bans that user name and host name.
pub fn check_banned(mask: &str, username: &String, hostname: &String) -> (r: bool)
    ensures
        r == mask_bans(mask@, username@, hostname@),
{
    let parts = split_char(mask, '@');
    if parts.len() < 2 {
        return false;
    }
    let first = chars_of(parts[0].as_str());
    if first.len() == 0 {
        return false;
    }
    let user_pattern = string_of_range(&first, 1, first.len());
    assert(user_pattern@ =~= strs(parts@)[0].drop_first());
    match_ban_expression(user_pattern.as_str(), username)
        && match_ban_expression(parts[1].as_str(), hostname)
}

/// Whether some mask of `masks` bans that user name and host name.
pub open spec fn any_mask_bans(masks: Seq<Seq<char>>, username: Seq<char>, hostname: Seq<char>) -> bool {
    exists|i: int| 0 <= i < masks.len() && mask_bans(#[trigger] masks[i], username, hostname)
}

impl Channel {
    /// Whether the nickname is an operator of the channel.
    pub fn is_admin(&self, user_nickname: &String) -> (r: bool)
        ensures
            r == self.operators().contains(user_nickname@),
    {
        contains_string(&self.admins, user_nickname)
    }

    /// Makes a member an operator; nothing changes if it already is one.
    pub fn add_admin(&mut self, user_nickname: String)
        ensures
            final(self).operators() == add_once(old(self).operators(), user_nickname@),
            final(self).users == old(self).users,
            final(self).can_speak_users == old(self).can_speak_users,
            final(self).name == old(self).name,
            final(self).mode == old(self).mode,
            final(self).topic == old(self).topic,
            final(self).limit == old(self).limit,
            final(self).password == old(self).password,
            final(self).ban_masks == old(self).ban_masks,
    {
        if !self.is_admin(&user_nickname) {
            let ghost before = self.admins@;
            self.admins.push(user_nickname);
            assert(strs(self.admins@) =~= strs(before).push(strs(self.admins@).last()));
        }
    }

    /// Takes operator rights away from the nickname.
    pub fn remove_admin(&mut self, user_nickname: String)
        ensures
            final(self).operators() == remove_first(old(self).operators(), user_nickname@),
            final(self).users == old(self).users,
            final(self).can_speak_users == old(self).can_speak_users,
            final(self).name == old(self).name,
            final(self).mode == old(self).mode,
            final(self).topic == old(self).topic,
            final(self).limit == old(self).limit,
            final(self).password == old(self).password,
            final(self).ban_masks == old(self).ban_masks,
    {
        remove_string(&mut self.admins, &user_nickname);
    }

    /// Takes the right to speak on a moderated channel away from the nickname.
    pub fn remove_speaker(&mut self, user_nickname: String)
        ensures
            final(self).speakers() == remove_first(old(self).speakers(), user_nickname@),
            final(self).users == old(self).users,
            final(self).admins == old(self).admins,
            final(self).name == old(self).name,
            final(self).mode == old(self).mode,
            final(self).topic == old(self).topic,
            final(self).limit == old(self).limit,
            final(self).password == old(self).password,
            final(self).ban_masks == old(self).ban_masks,
    {
        remove_string(&mut self.can_speak_users, &user_nickname);
    }

    /// Whether the nickname is a member.
    pub fn has_user(&self, user_nickname: &String) -> (r: bool)
        ensures
            r == self.members().contains(user_nickname@),
    {
        contains_string(&self.users, user_nickname)
    }

    /// Whether the nickname is voiced.
    pub fn can_speak(&self, user_nickname: &String) -> (r: bool)
        ensures
            r == self.speakers().contains(user_nickname@),
    {
        contains_string(&self.can_speak_users, user_nickname)
    }

    /// Adds a member; nothing changes if it already is one.
    pub fn add_user(&mut self, user_nickname: String)
        ensures
            final(self).members() == add_once(old(self).members(), user_nickname@),
            final(self).admins == old(self).admins,
            final(self).can_speak_users == old(self).can_speak_users,
            final(self).name == old(self).name,
            final(self).mode == old(self).mode,
            final(self).topic == old(self).topic,
            final(self).limit == old(self).limit,
            final(self).password == old(self).password,
            final(self).ban_masks == old(self).ban_masks,
            old(self).wf() ==> final(self).wf(),
    {
        if !self.has_user(&user_nickname) {
            let ghost before = self.users@;
            self.users.push(user_nickname);
            assert(strs(self.users@) =~= strs(before).push(strs(self.users@).last()));
            assert(forall|x: Seq<char>| strs(before).contains(x) ==> strs(self.users@).contains(x)) by {
                assert forall|x: Seq<char>| strs(before).contains(x) implies strs(self.users@).contains(x) by {
                    let j = choose|j: int| 0 <= j < strs(before).len() && strs(before)[j] == x;
                    assert(strs(self.users@)[j] == x);
                }
            }
        }
    }

    /// Whether one more member may join: there is no limit, or it is not reached.
    pub fn can_add_user(&self) -> (r: bool)
        ensures
            r == (!self.mode.l || (self.limit is Some && self.limit->0 > self.users@.len())),
    {
        !self.has_limit() || (self.has_limit() && self.has_free_space())
    }

    /// Whether a limit is set and the membership is below it.
    pub fn has_free_space(&self) -> (r: bool)
        ensures
            r == (self.limit is Some && self.limit->0 > self.users@.len()),
    {
        match self.limit {
            Some(lim) => lim > self.users.len(),
            None => false,
        }
    }

    /// Voices the nickname; nothing changes if it already is voiced.
    pub fn add_speaker(&mut self, user_nickname: String)
        ensures
            final(self).speakers() == add_once(old(self).speakers(), user_nickname@),
            final(self).users == old(self).users,
            final(self).admins == old(self).admins,
            final(self).name == old(self).name,
            final(self).mode == old(self).mode,
            final(self).topic == old(self).topic,
            final(self).limit == old(self).limit,
            final(self).password == old(self).password,
            final(self).ban_masks == old(self).ban_masks,
    {
        if !self.can_speak(&user_nickname) {
            let ghost before = self.can_speak_users@;
            self.can_speak_users.push(user_nickname);
            assert(strs(self.can_speak_users@) =~= strs(before).push(strs(self.can_speak_users@).last()));
        }
    }

    /// Removes a member, together with its operator rights and its voice.
    pub fn remove_user(&mut self, user_nickname: &String)
        ensures
            final(self).members() == remove_first(old(self).members(), user_nickname@),
            final(self).operators() == remove_first(old(self).operators(), user_nickname@),
            final(self).speakers() == remove_first(old(self).speakers(), user_nickname@),
            final(self).name == old(self).name,
            final(self).mode == old(self).mode,
            final(self).topic == old(self).topic,
            final(self).limit == old(self).limit,
            final(self).password == old(self).password,
            final(self).ban_masks == old(self).ban_masks,
    {
        remove_string(&mut self.users, user_nickname);
        remove_string(&mut self.admins, user_nickname);
        remove_string(&mut self.can_speak_users, user_nickname);
    }

    /// Removes a ban mask.
    pub fn remove_ban(&mut self, ban_mask: String)
        ensures
            final(self).bans() == remove_first(old(self).bans(), ban_mask@),
            final(self).users == old(self).users,
            final(self).admins == old(self).admins,
            final(self).can_speak_users == old(self).can_speak_users,
            final(self).name == old(self).name,
            final(self).mode == old(self).mode,
            final(self).topic == old(self).topic,
            final(self).limit == old(self).limit,
            final(self).password == old(self).password,
    {
        remove_string(&mut self.ban_masks, &ban_mask);
    }

    /// Neither private nor secret.
    pub fn is_visible(&self) -> (r: bool)
        ensures
            r == (!self.mode.p && !self.mode.s),
    {
        !self.is_private() && !self.is_secret()
    }

    pub fn is_private(&self) -> (r: bool)
        ensures
            r == self.mode.p,
    {
        self.mode.p
    }

    pub fn is_secret(&self) -> (r: bool)
        ensures
            r == self.mode.s,
    {
        self.mode.s
    }

    pub fn is_invite_only(&self) -> (r: bool)
        ensures
            r == self.mode.i,
    {
        self.mode.i
    }

    pub fn is_topic_operator_only(&self) -> (r: bool)
        ensures
            r == self.mode.t,
    {
        self.mode.t
    }

    pub fn is_no_msg_outside(&self) -> (r: bool)
        ensures
            r == self.mode.n,
    {
        self.mode.n
    }

    pub fn is_moderated(&self) -> (r: bool)
        ensures
            r == self.mode.m,
    {
        self.mode.m
    }

    /// Neither closed to outside messages nor moderated.
    pub fn is_not_msg_restricted(&self) -> (r: bool)
        ensures
            r == (!self.mode.n && !self.mode.m),
    {
        !self.is_no_msg_outside() && !self.is_moderated()
    }

    pub fn has_limit(&self) -> (r: bool)
        ensures
            r == self.mode.l,
    {
        self.mode.l
    }

    pub fn has_key(&self) -> (r: bool)
        ensures
            r == self.mode.k,
    {
        self.mode.k
    }

    /// Whether the nickname may speak while the channel is moderated: it is an
    /// operator or voiced.
    pub fn can_send_msg(&self, user_nickname: &String) -> (r: bool)
        ensures
            r == (self.operators().contains(user_nickname@) || self.speakers().contains(user_nickname@)),
    {
        self.is_admin(user_nickname) || self.can_speak(user_nickname)
    }

    /// Whether some ban mask of the channel bans that user name and host name.
    pub fn is_banned(&self, username: &String, hostname: &String) -> (r: bool)
        ensures
            r == any_mask_bans(self.bans(), username@, hostname@),
    {
        let mut i: usize = 0;
        while i < self.ban_masks.len()
            invariant
                i <= self.ban_masks@.len(),
                forall|j: int| 0 <= j < i ==> !mask_bans(#[trigger] self.bans()[j], username@, hostname@),
            decreases self.ban_masks@.len() - i,
        {
            if check_banned(self.ban_masks[i].as_str(), username, hostname) {
                assert(mask_bans(self.bans()[i as int], username@, hostname@));
                return true;
            }
            i = i + 1;
        }
        false
    }

    /// The topic, or `No topic is set` when there is none.
    pub fn get_topic(&self) -> (r: String)
        ensures
            r@ == (match self.topic { Some(t) => t@, None => "No topic is set"@ }),
    {
        match &self.topic {
            Some(t) => t.clone(),
            None => String::from_str("No topic is set"),
        }
    }

    pub fn has_topic(&self) -> (r: bool)
        ensures
            r == self.topic is Some,
    {
        self.topic.is_some()
    }

    /// Sets the topic.
    pub fn change_topic(&mut self, topic: String)
        ensures
            final(self).topic == Some(topic),
            final(self).users == old(self).users,
            final(self).admins == old(self).admins,
            final(self).can_speak_users == old(self).can_speak_users,
            final(self).name == old(self).name,
            final(self).mode == old(self).mode,
            final(self).limit == old(self).limit,
            final(self).password == old(self).password,
            final(self).ban_masks == old(self).ban_masks,
    {
        self.topic = Some(topic);
    }

    /// Whether the parameters of a JOIN carry exactly one key, and it is the
    /// channel's key.
    pub fn correct_key(&self, parameters: Vec<String>) -> (r: bool)
        ensures
            r == (parameters@.len() == 2 && self.password is Some
                && self.password->0@ == parameters@[1]@),
    {
        if parameters.len() != 2 {
            return false;
        }
        match &self.password {
            Some(p) => *p == parameters[1],
            None => false,
        }
    }
}


/// The abstract content of a [`Channel`].
pub struct ChannelView {
    pub name: Seq<char>,
    pub users: Seq<Seq<char>>,
    pub topic: Option<Seq<char>>,
    pub admins: Seq<Seq<char>>,
    pub mode: ChannelModes,
    pub limit: Option<usize>,
    pub bans: Seq<Seq<char>>,
    pub speakers: Seq<Seq<char>>,
    pub password: Option<Seq<char>>,
}

impl View for Channel {
    type V = ChannelView;

    open spec fn view(&self) -> ChannelView {
        ChannelView {
            name: self.name@,
            users: strs(self.users@),
            topic: crate::message::opt_view(self.topic),
            admins: strs(self.admins@),
            mode: self.mode,
            limit: self.limit,
            bans: strs(self.ban_masks@),
            speakers: strs(self.can_speak_users@),
            password: crate::message::opt_view(self.password),
        }
    }
}

/// The contents of a sequence of messages.
pub open spec fn msgs(v: Seq<Message>) -> Seq<MessageView> {
    v.map_values(|m: Message| m@)
}

/// The replies of `+o`/`-o`/`+v`/`-v`: none on success.
pub open spec fn member_arg_error(c: ChannelView, m: MessageView) -> Option<MessageView> {
    if m.parameters.len() < 3 {
        Some(err_need_more_params_v(m.command))
    } else if !c.users.contains(m.parameters[2]) {
        Some(error_no_such_nick_v(m.parameters[1]))
    } else {
        None
    }
}

/// The replies of `+b`: with no mask the list of masks and its end.
pub open spec fn ban_list_replies(c: ChannelView) -> Seq<MessageView> {
    c.bans.map_values(|b: Seq<char>| rpl_banlist_v(c.name, b)).push(rpl_end_of_ban_list_v(c.name))
}

/// What `+<mode>` does to a channel, and the replies it adds.
pub open spec fn activate_step(c: ChannelView, m: MessageView, mode: char) -> (ChannelView, Seq<MessageView>) {
    if mode == 'o' || mode == 'v' {
        match member_arg_error(c, m) {
            Some(e) => (c, seq![e]),
            None => if mode == 'o' {
                (ChannelView { admins: add_once(c.admins, m.parameters[2]), ..c }, Seq::empty())
            } else {
                (ChannelView { speakers: add_once(c.speakers, m.parameters[2]), ..c }, Seq::empty())
            },
        }
    } else if mode == 'p' || mode == 's' || mode == 't' || mode == 'i' || mode == 'n' || mode == 'm' {
        (ChannelView { mode: c.mode.with_flag(mode, true), ..c }, Seq::empty())
    } else if mode == 'l' {
        if m.parameters.len() < 3 {
            (c, seq![err_need_more_params_v(m.command)])
        } else {
            match usize_of(m.parameters[2]) {
                Some(n) => if !c.mode.l && n >= c.users.len() {
                    (ChannelView { limit: Some(n), mode: c.mode.with_flag('l', true), ..c }, Seq::empty())
                } else {
                    (c, Seq::empty())
                },
                None => (c, Seq::empty()),
            }
        }
    } else if mode == 'b' {
        if m.parameters.len() < 2 {
            (c, seq![err_need_more_params_v(m.command)])
        } else if m.parameters.len() == 2 {
            (c, ban_list_replies(c))
        } else if m.parameters.len() == 3 && c.bans.len() < 3 {
            (ChannelView { bans: c.bans.push(m.parameters[2]), ..c }, Seq::empty())
        } else {
            (c, Seq::empty())
        }
    } else if mode == 'k' {
        if m.parameters.len() < 3 {
            (c, seq![err_need_more_params_v(m.command)])
        } else if c.mode.k {
            (c, seq![err_key_set_v(c.name)])
        } else {
            (ChannelView { password: Some(m.parameters[2]), mode: c.mode.with_flag('k', true), ..c }, Seq::empty())
        }
    } else {
        (c, seq![err_unknown_mode_v(mode)])
    }
}

/// What `-<mode>` does to a channel, and the replies it adds.
pub open spec fn deactivate_step(c: ChannelView, m: MessageView, mode: char) -> (ChannelView, Seq<MessageView>) {
    if mode == 'o' || mode == 'v' {
        match member_arg_error(c, m) {
            Some(e) => (c, seq![e]),
            None => if mode == 'o' {
                (ChannelView { admins: remove_first(c.admins, m.parameters[2]), ..c }, Seq::empty())
            } else {
                (ChannelView { speakers: remove_first(c.speakers, m.parameters[2]), ..c }, Seq::empty())
            },
        }
    } else if mode == 'p' || mode == 's' || mode == 't' || mode == 'i' || mode == 'n' || mode == 'm' {
        (ChannelView { mode: c.mode.with_flag(mode, false), ..c }, Seq::empty())
    } else if mode == 'l' {
        (ChannelView { limit: None, mode: c.mode.with_flag('l', false), ..c }, Seq::empty())
    } else if mode == 'b' {
        if m.parameters.len() < 3 {
            (c, seq![err_need_more_params_v(m.command)])
        } else {
            (ChannelView { bans: remove_first(c.bans, m.parameters[2]), ..c }, Seq::empty())
        }
    } else if mode == 'k' {
        (ChannelView { password: None, mode: c.mode.with_flag('k', false), ..c }, Seq::empty())
    } else {
        (c, seq![err_unknown_mode_v(mode)])
    }
}

/// The characters of `s` after its first one.
pub open spec fn after_first(s: Seq<char>) -> Seq<char> {
    if s.len() == 0 { s } else { s.subrange(1, s.len() as int) }
}

/// Applying `+` (when `on`) or `-` for each letter of `letters` in turn, from a
/// channel and the replies so far.
pub open spec fn apply_modes(c: ChannelView, m: MessageView, letters: Seq<char>, on: bool, replies: Seq<MessageView>) -> (ChannelView, Seq<MessageView>)
    decreases letters.len(),
{
    if letters.len() == 0 {
        (c, replies)
    } else {
        let prev = apply_modes(c, m, letters.drop_last(), on, replies);
        let step = if on { activate_step(prev.0, m, letters.last()) } else { deactivate_step(prev.0, m, letters.last()) };
        (step.0, prev.1 + step.1)
    }
}


/// Appends one reply.
pub fn push_reply(rv: &mut Vec<Message>, m: Message)
    ensures
        msgs(final(rv)@) == msgs(old(rv)@) + seq![m@],
{
    let ghost before = rv@;
    rv.push(m);
    assert(msgs(rv@) =~= msgs(before) + seq![m@]);
}

impl Channel {
    /// `+o nick`: makes a member an operator.
    pub fn operator_mode(&mut self, msg: Message, response_vector: Vec<Message>) -> (r: Vec<Message>)
        ensures
            final(self)@ == activate_step(old(self)@, msg@, 'o').0,
            msgs(r@) == msgs(response_vector@) + activate_step(old(self)@, msg@, 'o').1,
    {
        let mut response_vector = response_vector;
        if msg.parameters.len() < 3 {
            push_reply(&mut response_vector, err_need_more_params(msg.command));
        } else if !self.has_user(&msg.parameters[2]) {
            push_reply(&mut response_vector, error_no_such_nick(msg.parameters[1].clone()));
        } else {
            self.add_admin(msg.parameters[2].clone());
            assert(msgs(response_vector@) =~= msgs(response_vector@) + Seq::<MessageView>::empty());
        }
        response_vector
    }

    /// `-o nick`: takes operator rights from a member.
    pub fn deoperator_mode(&mut self, msg: Message, response_vector: Vec<Message>) -> (r: Vec<Message>)
        ensures
            final(self)@ == deactivate_step(old(self)@, msg@, 'o').0,
            msgs(r@) == msgs(response_vector@) + deactivate_step(old(self)@, msg@, 'o').1,
    {
        let mut response_vector = response_vector;
        if msg.parameters.len() < 3 {
            push_reply(&mut response_vector, err_need_more_params(msg.command));
        } else if !self.has_user(&msg.parameters[2]) {
            push_reply(&mut response_vector, error_no_such_nick(msg.parameters[1].clone()));
        } else {
            self.remove_admin(msg.parameters[2].clone());
            assert(msgs(response_vector@) =~= msgs(response_vector@) + Seq::<MessageView>::empty());
        }
        response_vector
    }

    /// `+v nick`: voices a member.
    pub fn speak_mode(&mut self, msg: Message, response_vector: Vec<Message>) -> (r: Vec<Message>)
        ensures
            final(self)@ == activate_step(old(self)@, msg@, 'v').0,
            msgs(r@) == msgs(response_vector@) + activate_step(old(self)@, msg@, 'v').1,
    {
        let mut response_vector = response_vector;
        if msg.parameters.len() < 3 {
            push_reply(&mut response_vector, err_need_more_params(msg.command));
        } else if !self.has_user(&msg.parameters[2]) {
            push_reply(&mut response_vector, error_no_such_nick(msg.parameters[1].clone()));
        } else {
            self.add_speaker(msg.parameters[2].clone());
            assert(msgs(response_vector@) =~= msgs(response_vector@) + Seq::<MessageView>::empty());
        }
        response_vector
    }

    /// `-v nick`: takes the voice from a member.
    pub fn despeak_mode(&mut self, msg: Message, response_vector: Vec<Message>) -> (r: Vec<Message>)
        ensures
            final(self)@ == deactivate_step(old(self)@, msg@, 'v').0,
            msgs(r@) == msgs(response_vector@) + deactivate_step(old(self)@, msg@, 'v').1,
    {
        let mut response_vector = response_vector;
        if msg.parameters.len() < 3 {
            push_reply(&mut response_vector, err_need_more_params(msg.command));
        } else if !self.has_user(&msg.parameters[2]) {
            push_reply(&mut response_vector, error_no_such_nick(msg.parameters[1].clone()));
        } else {
            self.remove_speaker(msg.parameters[2].clone());
            assert(msgs(response_vector@) =~= msgs(response_vector@) + Seq::<MessageView>::empty());
        }
        response_vector
    }

    /// `+l n`: sets the member limit, once, and never below the membership.
    pub fn limit_mode(&mut self, msg: Message, response_vector: Vec<Message>) -> (r: Vec<Message>)
        ensures
            final(self)@ == activate_step(old(self)@, msg@, 'l').0,
            msgs(r@) == msgs(response_vector@) + activate_step(old(self)@, msg@, 'l').1,
    {
        let mut response_vector = response_vector;
        assert(msgs(response_vector@) =~= msgs(response_vector@) + Seq::<MessageView>::empty());
        if msg.parameters.len() < 3 {
            push_reply(&mut response_vector, err_need_more_params(msg.command));
        } else {
            match parse_usize(msg.parameters[2].as_str()) {
                Some(limit) => {
                    if !self.has_limit() && limit >= self.users.len() {
                        self.limit = Some(limit);
                        self.mode.activate_l();
                    }
                },
                None => {},
            }
        }
        response_vector
    }

    /// `+b`: with no mask lists the masks; with one adds it while fewer than
    /// three are set.
    pub fn ban_mode(&mut self, msg: Message, response_vector: Vec<Message>) -> (r: Vec<Message>)
        ensures
            final(self)@ == activate_step(old(self)@, msg@, 'b').0,
            msgs(r@) == msgs(response_vector@) + activate_step(old(self)@, msg@, 'b').1,
    {
        let mut response_vector = response_vector;
        assert(msgs(response_vector@) =~= msgs(response_vector@) + Seq::<MessageView>::empty());
        if msg.parameters.len() < 2 {
            push_reply(&mut response_vector, err_need_more_params(msg.command));
        } else if msg.parameters.len() == 2 {
            let ghost start = msgs(response_vector@);
            let ghost c = self@;
            let mut i: usize = 0;
            while i < self.ban_masks.len()
                invariant
                    i <= self.ban_masks@.len(),
                    self@ == c,
                    msgs(response_vector@) == start + c.bans.take(i as int).map_values(|b: Seq<char>| rpl_banlist_v(c.name, b)),
                decreases self.ban_masks@.len() - i,
            {
                push_reply(&mut response_vector, rpl_banlist(self.name.clone(), self.ban_masks[i].clone()));
                assert(c.bans.take(i + 1).map_values(|b: Seq<char>| rpl_banlist_v(c.name, b))
                    =~= c.bans.take(i as int).map_values(|b: Seq<char>| rpl_banlist_v(c.name, b)).push(rpl_banlist_v(c.name, c.bans[i as int])));
                i = i + 1;
            }
            push_reply(&mut response_vector, rpl_end_of_ban_list(self.name.clone()));
            assert(c.bans.take(c.bans.len() as int) =~= c.bans);
            assert(msgs(response_vector@) =~= start + ban_list_replies(c));
        } else if msg.parameters.len() == 3 && self.ban_masks.len() < 3 {
            let ghost before = self.ban_masks@;
            self.ban_masks.push(msg.parameters[2].clone());
            assert(strs(self.ban_masks@) =~= strs(before).push(msg@.parameters[2]));
        }
        response_vector
    }

    /// `-b mask`: removes a ban mask.
    pub fn unban_mode(&mut self, msg: Message, response_vector: Vec<Message>) -> (r: Vec<Message>)
        ensures
            final(self)@ == deactivate_step(old(self)@, msg@, 'b').0,
            msgs(r@) == msgs(response_vector@) + deactivate_step(old(self)@, msg@, 'b').1,
    {
        let mut response_vector = response_vector;
        assert(msgs(response_vector@) =~= msgs(response_vector@) + Seq::<MessageView>::empty());
        if msg.parameters.len() < 3 {
            push_reply(&mut response_vector, err_need_more_params(msg.command));
        } else {
            self.remove_ban(msg.parameters[2].clone());
        }
        response_vector
    }

    /// `+k key`: sets the key when none is set.
    pub fn key_mode(&mut self, msg: Message, response_vector: Vec<Message>) -> (r: Vec<Message>)
        ensures
            final(self)@ == activate_step(old(self)@, msg@, 'k').0,
            msgs(r@) == msgs(response_vector@) + activate_step(old(self)@, msg@, 'k').1,
    {
        let mut response_vector = response_vector;
        assert(msgs(response_vector@) =~= msgs(response_vector@) + Seq::<MessageView>::empty());
        if msg.parameters.len() < 3 {
            push_reply(&mut response_vector, err_need_more_params(msg.command));
        } else if self.has_key() {
            push_reply(&mut response_vector, err_key_set(self.name.clone()));
        } else {
            self.password = Some(msg.parameters[2].clone());
            self.mode.activate_k();
        }
        response_vector
    }
}


impl Channel {
    /// `+<mode>` for one letter.
    pub fn activate_mode(&mut self, msg: Message, mode: char, response_vector: Vec<Message>) -> (r: Vec<Message>)
        ensures
            final(self)@ == activate_step(old(self)@, msg@, mode).0,
            msgs(r@) == msgs(response_vector@) + activate_step(old(self)@, msg@, mode).1,
    {
        let mut response_vector = response_vector;
        assert(msgs(response_vector@) =~= msgs(response_vector@) + Seq::<MessageView>::empty());
        match mode {
            'o' => self.operator_mode(msg, response_vector),
            'p' => {
                self.mode.activate_p();
                response_vector
            },
            's' => {
                self.mode.activate_s();
                response_vector
            },
            't' => {
                self.mode.activate_t();
                response_vector
            },
            'i' => {
                self.mode.activate_i();
                response_vector
            },
            'n' => {
                self.mode.activate_n();
                response_vector
            },
            'm' => {
                self.mode.activate_m();
                response_vector
            },
            'v' => self.speak_mode(msg, response_vector),
            'l' => self.limit_mode(msg, response_vector),
            'b' => self.ban_mode(msg, response_vector),
            'k' => self.key_mode(msg, response_vector),
            _ => {
                push_reply(&mut response_vector, err_unknown_mode(mode));
                response_vector
            },
        }
    }

    /// `-<mode>` for one letter.
    pub fn deactivate_mode(&mut self, msg: Message, mode: char, response_vector: Vec<Message>) -> (r: Vec<Message>)
        ensures
            final(self)@ == deactivate_step(old(self)@, msg@, mode).0,
            msgs(r@) == msgs(response_vector@) + deactivate_step(old(self)@, msg@, mode).1,
    {
        let mut response_vector = response_vector;
        assert(msgs(response_vector@) =~= msgs(response_vector@) + Seq::<MessageView>::empty());
        match mode {
            'o' => self.deoperator_mode(msg, response_vector),
            'p' => {
                self.mode.deactivate_p();
                response_vector
            },
            's' => {
                self.mode.deactivate_s();
                response_vector
            },
            't' => {
                self.mode.deactivate_t();
                response_vector
            },
            'i' => {
                self.mode.deactivate_i();
                response_vector
            },
            'n' => {
                self.mode.deactivate_n();
                response_vector
            },
            'm' => {
                self.mode.deactivate_m();
                response_vector
            },
            'v' => self.despeak_mode(msg, response_vector),
            'l' => {
                self.limit = None;
                self.mode.deactivate_l();
                response_vector
            },
            'b' => self.unban_mode(msg, response_vector),
            'k' => {
                self.password = None;
                self.mode.deactivate_k();
                response_vector
            },
            _ => {
                push_reply(&mut response_vector, err_unknown_mode(mode));
                response_vector
            },
        }
    }

    /// Applies `+` or `-` for each letter of the second parameter after its first
    /// character, in order.
    fn apply_all_modes(&mut self, msg: Message, on: bool, response_vector: Vec<Message>) -> (r: Vec<Message>)
        requires
            msg.parameters@.len() >= 2,
        ensures
            (final(self)@, msgs(r@)) == apply_modes(old(self)@, msg@,
                after_first(msg@.parameters[1]), on, msgs(response_vector@)),
    {
        let mut response_vector = response_vector;
        let letters = chars_of(msg.parameters[1].as_str());
        let ghost c0 = self@;
        let ghost r0 = msgs(response_vector@);
        assert(letters@ == msg@.parameters[1]);
        if letters.len() == 0 {
            return response_vector;
        }
        let mut i: usize = 1;
        while i < letters.len()
            invariant
                1 <= i <= letters@.len(),
                letters@ == msg@.parameters[1],
                (self@, msgs(response_vector@)) == apply_modes(c0, msg@, letters@.subrange(1, i as int), on, r0),
            decreases letters@.len() - i,
        {
            let ghost prev = (self@, msgs(response_vector@));
            if on {
                response_vector = self.activate_mode(msg.duplicate(), letters[i], response_vector);
            } else {
                response_vector = self.deactivate_mode(msg.duplicate(), letters[i], response_vector);
            }
            assert(letters@.subrange(1, i + 1).drop_last() =~= letters@.subrange(1, i as int));
            i = i + 1;
        }
        assert(letters@.subrange(1, letters@.len() as int) =~= after_first(msg@.parameters[1]));
        response_vector
    }

    /// `+letters`: switches on each mode named after the first character of the
    /// second parameter.
    pub fn activate_modes(&mut self, msg: Message, response_vector: Vec<Message>) -> (r: Vec<Message>)
        requires
            msg.parameters@.len() >= 2,
        ensures
            (final(self)@, msgs(r@)) == apply_modes(old(self)@, msg@,
                after_first(msg@.parameters[1]), true, msgs(response_vector@)),
    {
        self.apply_all_modes(msg, true, response_vector)
    }

    /// `-letters`: switches off each mode named after the first character of the
    /// second parameter.
    pub fn deactivate_modes(&mut self, msg: Message, response_vector: Vec<Message>) -> (r: Vec<Message>)
        requires
            msg.parameters@.len() >= 2,
        ensures
            (final(self)@, msgs(r@)) == apply_modes(old(self)@, msg@,
                after_first(msg@.parameters[1]), false, msgs(response_vector@)),
    {
        self.apply_all_modes(msg, false, response_vector)
    }
}


/// Whether the UTF-8 bytes of a name make a valid channel name: at most 200
/// bytes, starting with `#` or `&`, with no space, comma or BEL byte.
pub open spec fn valid_channel_bytes(b: Seq<u8>) -> bool {
    &&& b.len() <= 200
    &&& b.len() > 0
    &&& (b[0] == 35u8 || b[0] == 38u8)
    &&& !b.contains(32u8)
    &&& !b.contains(44u8)
    &&& !b.contains(7u8)
}

/// Whether a name is a valid channel name.
pub open spec fn valid_channel_name(name: Seq<char>) -> bool {
    valid_channel_bytes(vstd::utf8::encode_utf8(name))
}

/// Creates a channel of that name when the name is valid.
pub fn create_valid_channel(name: String) -> (r: Result<Channel, InvalidMessageError>)
    ensures
        r is Ok <==> valid_channel_name(name@),
        r is Ok ==> ({
            let c = r->Ok_0;
            &&& c@.name == name@
            &&& c@.users.len() == 0
            &&& c@.admins.len() == 0
            &&& c@.speakers.len() == 0
            &&& c@.bans.len() == 0
            &&& c.topic is None
            &&& c.limit is None
            &&& c.password is None
            &&& c.mode == ChannelModes::none()
        }),
{
    let bytes = name.as_str().as_bytes();
    let n = bytes.len();
    let mut ok = n <= 200 && n > 0 && (bytes[0] == 35u8 || bytes[0] == 38u8);
    let mut i: usize = 0;
    while i < n
        invariant
            n == bytes@.len(),
            bytes@ == vstd::utf8::encode_utf8(name@),
            i <= n,
            ok == (n <= 200 && n > 0 && (bytes@[0] == 35u8 || bytes@[0] == 38u8)
                && forall|j: int| 0 <= j < i ==> bytes@[j] != 32u8 && bytes@[j] != 44u8 && bytes@[j] != 7u8),
        decreases n - i,
    {
        let b = bytes[i];
        if b == 32u8 || b == 44u8 || b == 7u8 {
            ok = false;
        }
        i = i + 1;
    }
    proof {
        let bs = bytes@;
        if bs.contains(32u8) {
            let j = choose|j: int| 0 <= j < bs.len() && bs[j] == 32u8;
        }
        if bs.contains(44u8) {
            let j = choose|j: int| 0 <= j < bs.len() && bs[j] == 44u8;
        }
        if bs.contains(7u8) {
            let j = choose|j: int| 0 <= j < bs.len() && bs[j] == 7u8;
        }
        if ok {
            assert(!bs.contains(32u8));
            assert(!bs.contains(44u8));
            assert(!bs.contains(7u8));
        }
    }
    if ok {
        Ok(Channel::new(&name))
    } else {
        Err(InvalidMessageError { error_message: String::from_str("Cannot create a channel with that name") })
    }
}

impl Channel {
    /// A message listing the members, one per line, after a heading line.
    pub fn list_users(&self) -> (r: Message)
        ensures
            r@ == parse_spec("Users from channel "@ + self.name@ + prefixed_join(self.members(), seq!['\n'])),
    {
        let mut line = concat("Users from channel ", self.name.as_str());
        let ghost head = line@;
        let mut i: usize = 0;
        while i < self.users.len()
            invariant
                i <= self.users@.len(),
                line@ == head + prefixed_join(self.members().take(i as int), seq!['\n']),
            decreases self.users@.len() - i,
        {
            let ghost before = line@;
            crate::text::push_char(&mut line, '\n');
            line.append(self.users[i].as_str());
            let ghost ns = self.members();
            assert(ns.take(i + 1).drop_last() =~= ns.take(i as int));
            assert(line@ =~= before + seq!['\n'] + ns.take(i + 1).last());
            i = i + 1;
        }
        assert(self.members().take(self.users@.len() as int) =~= self.members());
        parse_line(line.as_str())
    }

    /// A message giving the channel's topic (see [`Channel::get_topic`]).
    pub fn show_channel_topic(&self) -> (r: Message)
        ensures
            r@ == parse_spec("Topic from channel "@ + self.name@ + ": "@
                + (match self.topic { Some(t) => t@, None => "No topic is set"@ })),
    {
        let line = concat("Topic from channel ", self.name.as_str());
        let line = concat(line.as_str(), ": ");
        let topic = self.get_topic();
        let line = concat(line.as_str(), topic.as_str());
        parse_line(line.as_str())
    }
}

} // verus!
