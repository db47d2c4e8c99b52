use vstd::prelude::*;
use vstd::string::StringExecFns;
use crate::channel::{
    Channel, ChannelView, msgs, push_reply, add_once, any_mask_bans, create_valid_channel,
    valid_channel_name,
};
use crate::channel_modes::ChannelModes;
use crate::message::{Message, MessageView, strings_view};
use crate::replies::{
    rpl_list_start, rpl_list_start_v, rpl_list_end, rpl_list_end_v, rpl_you_are_oper,
    rpl_you_are_oper_v, err_no_oper_host, err_no_oper_host_v,
    error_no_such_nick, error_no_such_nick_v, err_user_on_channel, err_user_on_channel_v,
    err_chan_opriv_is_needed, err_chan_opriv_is_needed_v, rpl_inviting, rpl_inviting_v,
    rpl_no_topic, rpl_no_topic_v, err_unknown_mode, err_unknown_mode_v,
    err_not_on_channel, err_not_on_channel_v,
    err_need_more_params, err_need_more_params_v, err_no_such_channel, err_no_such_channel_v,
    rpl_list, rpl_list_v, err_invite_only_chan, err_invite_only_chan_v, err_banned_from_chan,
    err_banned_from_chan_v, err_channel_is_full, err_channel_is_full_v, err_bad_channel_key,
    err_bad_channel_key_v, rpl_topic, rpl_topic_v, rpl_name_rply, rpl_name_rply_v,
    rpl_end_of_names, rpl_end_of_names_v,
};
use crate::text::{strs, split_char, split_spec, remove_first};
use crate::user::{User, UserView};
use crate::directory::{find_user, find_channel, has_nick};
use crate::server_errors::ServerError;
use crate::net::Server;

verus! {

/// The contents of a list of channels.
pub open spec fn chans(v: Seq<Channel>) -> Seq<ChannelView> {
    v.map_values(|c: Channel| c@)
}

/// The contents of a list of users.
pub open spec fn usrs(v: Seq<User>) -> Seq<UserView> {
    v.map_values(|u: User| u@)
}

/// The position of the first channel of that name, or -1.
pub open spec fn channel_index(chs: Seq<ChannelView>, name: Seq<char>) -> int
    decreases chs.len(),
{
    if chs.len() == 0 {
        -1
    } else {
        let k = channel_index(chs.drop_last(), name);
        if k >= 0 { k } else if chs.last().name == name { chs.len() - 1 } else { -1 }
    }
}

/// The position of the first user with that nickname, or -1.
pub open spec fn user_index(us: Seq<UserView>, nick: Seq<char>) -> int
    decreases us.len(),
{
    if us.len() == 0 {
        -1
    } else {
        let k = user_index(us.drop_last(), nick);
        if k >= 0 { k } else if us.last().nickname == nick { us.len() - 1 } else { -1 }
    }
}

pub proof fn lemma_channel_index(chs: Seq<ChannelView>, name: Seq<char>, i: int)
    requires
        -1 <= i < chs.len(),
        i >= 0 ==> chs[i].name == name,
        forall|j: int| 0 <= j < chs.len() && (i < 0 || j < i) ==> chs[j].name != name,
    ensures
        channel_index(chs, name) == i,
    decreases chs.len(),
{
    if chs.len() > 0 {
        let d = chs.drop_last();
        if i == chs.len() - 1 {
            lemma_channel_index(d, name, -1);
        } else {
            lemma_channel_index(d, name, i);
        }
    }
}

pub proof fn lemma_user_index(us: Seq<UserView>, nick: Seq<char>, i: int)
    requires
        -1 <= i < us.len(),
        i >= 0 ==> us[i].nickname == nick,
        forall|j: int| 0 <= j < us.len() && (i < 0 || j < i) ==> us[j].nickname != nick,
    ensures
        user_index(us, nick) == i,
    decreases us.len(),
{
    if us.len() > 0 {
        let d = us.drop_last();
        if i == us.len() - 1 {
            lemma_user_index(d, nick, -1);
        } else {
            lemma_user_index(d, nick, i);
        }
    }
}

pub proof fn lemma_channel_index_found(chs: Seq<ChannelView>, name: Seq<char>)
    ensures
        -1 <= channel_index(chs, name) < chs.len(),
        channel_index(chs, name) >= 0 ==> chs[channel_index(chs, name)].name == name,
        channel_index(chs, name) < 0 ==> forall|j: int| 0 <= j < chs.len() ==> chs[j].name != name,
        forall|j: int| 0 <= j < channel_index(chs, name) ==> chs[j].name != name,
    decreases chs.len(),
{
    if chs.len() > 0 {
        lemma_channel_index_found(chs.drop_last(), name);
        assert forall|j: int| 0 <= j < chs.len() - 1 implies chs[j] == chs.drop_last()[j] by {}
    }
}

pub proof fn lemma_user_index_found(us: Seq<UserView>, nick: Seq<char>)
    ensures
        -1 <= user_index(us, nick) < us.len(),
        user_index(us, nick) >= 0 ==> us[user_index(us, nick)].nickname == nick,
        user_index(us, nick) < 0 ==> forall|j: int| 0 <= j < us.len() ==> us[j].nickname != nick,
    decreases us.len(),
{
    if us.len() > 0 {
        lemma_user_index_found(us.drop_last(), nick);
        assert forall|j: int| 0 <= j < us.len() - 1 implies us[j] == us.drop_last()[j] by {}
    }
}

/// Finds a channel, stating the position through [`channel_index`].
fn locate_channel(channels: &Vec<Channel>, name: &String) -> (r: Option<usize>)
    ensures
        match r {
            Some(i) => i < channels@.len() && channel_index(chans(channels@), name@) == i,
            None => channel_index(chans(channels@), name@) == -1,
        },
{
    let r = find_channel(channels, name);
    proof {
        match r {
            Some(i) => lemma_channel_index(chans(channels@), name@, i as int),
            None => {
                assert forall|j: int| 0 <= j < chans(channels@).len() implies chans(channels@)[j].name != name@ by {
                    assert(channels@[j].name@ == chans(channels@)[j].name);
                }
                lemma_channel_index(chans(channels@), name@, -1);
            },
        }
    }
    r
}

/// Finds a user, stating the position through [`user_index`].
fn locate_user(users: &Vec<User>, nick: &String) -> (r: Option<usize>)
    ensures
        match r {
            Some(i) => i < users@.len() && user_index(usrs(users@), nick@) == i,
            None => user_index(usrs(users@), nick@) == -1,
        },
{
    let r = find_user(users, nick);
    proof {
        match r {
            Some(i) => lemma_user_index(usrs(users@), nick@, i as int),
            None => {
                assert forall|j: int| 0 <= j < usrs(users@).len() implies usrs(users@)[j].nickname != nick@ by {
                    assert(users@[j].nickname@ == usrs(users@)[j].nickname);
                    assert(!(users@[j].nickname@ == nick@));
                }
                lemma_user_index(usrs(users@), nick@, -1);
            },
        }
    }
    r
}

/// The text of a channel's topic in listings: the topic, or `No topic is set`.
pub open spec fn topic_text(c: ChannelView) -> Seq<char> {
    match c.topic {
        Some(t) => t,
        None => "No topic is set"@,
    }
}

/// The topic sent to a user who joins: the topic, or empty text.
pub open spec fn join_topic(c: ChannelView) -> Seq<char> {
    match c.topic {
        Some(t) => t,
        None => Seq::empty(),
    }
}

/// The `[322]` entry that a listing shows of a channel to that nickname, if any:
/// visible channels, and secret ones to members, with their topic; private ones
/// with their topic to members and with empty text to others.
pub open spec fn list_entry(c: ChannelView, nick: Seq<char>) -> Seq<MessageView> {
    if (!c.mode.p && !c.mode.s) || (c.mode.s && c.users.contains(nick)) {
        seq![rpl_list_v(c.name, topic_text(c))]
    } else if c.mode.p {
        if c.users.contains(nick) {
            seq![rpl_list_v(c.name, topic_text(c))]
        } else {
            seq![rpl_list_v(c.name, Seq::empty())]
        }
    } else {
        Seq::empty()
    }
}

/// Appends the listing entry of a channel for that user.
pub fn list_channel(channel: &Channel, user: &User, response_vector: &mut Vec<Message>)
    ensures
        msgs(final(response_vector)@) == msgs(old(response_vector)@) + list_entry(channel@, user.nickname@),
{
    let ghost start = msgs(response_vector@);
    if channel.is_visible() || (channel.is_secret() && channel.has_user(&user.nickname)) {
        push_reply(response_vector, rpl_list(channel.name.clone(), channel.get_topic()));
    } else if channel.is_private() {
        if channel.has_user(&user.nickname) {
            push_reply(response_vector, rpl_list(channel.name.clone(), channel.get_topic()));
        } else {
            push_reply(response_vector, rpl_list(channel.name.clone(), String::new()));
        }
    } else {
        assert(msgs(response_vector@) =~= start + Seq::<MessageView>::empty());
    }
}

/// Why a user may not join an existing channel, if it may not: invite-only,
/// banned, full, or a wrong key, checked in that order.
pub open spec fn join_gate(c: ChannelView, u: UserView, params: Seq<Seq<char>>) -> Option<MessageView> {
    if c.mode.i {
        Some(err_invite_only_chan_v(c.name))
    } else if any_mask_bans(c.bans, u.username, u.hostname) {
        Some(err_banned_from_chan_v(c.name))
    } else if c.mode.l && !(c.limit is Some && c.limit->0 > c.users.len()) {
        Some(err_channel_is_full_v(c.name))
    } else if c.mode.k && !(params.len() == 2 && c.password == Some(params[1])) {
        Some(err_bad_channel_key_v(c.name))
    } else {
        None
    }
}

/// The three replies to a successful JOIN: topic, names, end of names.
pub open spec fn join_replies(c: ChannelView) -> Seq<MessageView> {
    seq![
        rpl_topic_v(c.name, join_topic(c)),
        rpl_name_rply_v(c.name, c.users),
        rpl_end_of_names_v(c.name),
    ]
}

/// The channel after a user is admitted.
pub open spec fn admitted(c: ChannelView, nick: Seq<char>) -> ChannelView {
    ChannelView { users: add_once(c.users, nick), ..c }
}

/// What admitting a user to an existing channel does: the channel, the user's
/// channel names, and the replies.
pub open spec fn admit_spec(c: ChannelView, u: UserView, params: Seq<Seq<char>>) -> (ChannelView, Seq<Seq<char>>, Seq<MessageView>) {
    match join_gate(c, u, params) {
        Some(e) => (c, u.channels, seq![e]),
        None => {
            let c2 = admitted(c, u.nickname);
            (c2, add_once(u.channels, c.name), join_replies(c2) + list_entry(c2, u.nickname))
        },
    }
}

/// Admits the user to an existing channel when it may join, and says why not
/// otherwise.
pub fn add_user_to_channel(channel: &mut Channel, user: &mut User, parameters: Vec<String>) -> (r: Vec<Message>)
    ensures
        final(channel)@ == admit_spec(old(channel)@, old(user)@, strings_view(parameters@)).0,
        final(user)@ == (UserView { channels: admit_spec(old(channel)@, old(user)@, strings_view(parameters@)).1, ..old(user)@ }),
        msgs(r@) == admit_spec(old(channel)@, old(user)@, strings_view(parameters@)).2,
{
    let mut responses: Vec<Message> = Vec::new();
    assert(msgs(responses@) =~= Seq::<MessageView>::empty());
    if channel.is_invite_only() {
        push_reply(&mut responses, err_invite_only_chan(channel.name.clone()));
    } else if channel.is_banned(&user.username, &user.hostname) {
        push_reply(&mut responses, err_banned_from_chan(channel.name.clone()));
    } else if channel.has_limit() && !channel.has_free_space() {
        push_reply(&mut responses, err_channel_is_full(channel.name.clone()));
    } else if channel.has_key() && !channel.correct_key(parameters) {
        push_reply(&mut responses, err_bad_channel_key(channel.name.clone()));
    } else {
        channel.add_user(user.nickname.clone());
        let name = channel.name.clone();
        user.add_channel(&name);
        let topic = match &channel.topic {
            Some(t) => t.clone(),
            None => String::new(),
        };
        push_reply(&mut responses, rpl_topic(channel.name.clone(), topic));
        push_reply(&mut responses, rpl_name_rply(channel.name.clone(), crate::message::copy_strings(&channel.users)));
        push_reply(&mut responses, rpl_end_of_names(channel.name.clone()));
        list_channel(channel, user, &mut responses);
    }
    responses
}


/// Appends the replies of `more`.
pub fn append_replies(rv: &mut Vec<Message>, more: Vec<Message>)
    ensures
        msgs(final(rv)@) == msgs(old(rv)@) + msgs(more@),
{
    let mut more = more;
    let ghost a = rv@;
    let ghost b = more@;
    rv.append(&mut more);
    assert(rv@ =~= a + b);
    assert(msgs(rv@) =~= msgs(a) + msgs(b));
}

/// The nickname a JOIN acts for: a JOIN forwarded by a peer for an `&`-channel
/// names its user as second parameter; otherwise the sender.
pub open spec fn join_nick(m: MessageView, nick: Seq<char>) -> Seq<char> {
    if m.parameters.len() == 2 && m.parameters[0].len() > 0 && m.parameters[0][0] == '&' {
        m.parameters[1]
    } else {
        nick
    }
}

/// A channel just created by `nick`: its only member and operator.
pub open spec fn new_channel_view(name: Seq<char>, nick: Seq<char>) -> ChannelView {
    ChannelView {
        name,
        users: seq![nick],
        topic: None,
        admins: seq![nick],
        mode: ChannelModes::none(),
        limit: None,
        bans: Seq::empty(),
        speakers: Seq::empty(),
        password: None,
    }
}

/// What joining one channel name does to the channels, the joining user and the
/// replies so far.
pub open spec fn join_one(st: (Seq<ChannelView>, UserView, Seq<MessageView>), name: Seq<char>, params: Seq<Seq<char>>) -> (Seq<ChannelView>, UserView, Seq<MessageView>) {
    let (chs, u, out) = st;
    let idx = channel_index(chs, name);
    if idx >= 0 {
        let a = admit_spec(chs[idx], u, params);
        (chs.update(idx, a.0), UserView { channels: a.1, ..u }, out + a.2)
    } else if valid_channel_name(name) {
        let c = new_channel_view(name, u.nickname);
        (chs.push(c), UserView { channels: add_once(u.channels, name), ..u }, out + join_replies(c))
    } else {
        (chs, u, out.push(err_no_such_channel_v(name)))
    }
}

/// Joining each of the names in turn.
pub open spec fn join_all(st: (Seq<ChannelView>, UserView, Seq<MessageView>), names: Seq<Seq<char>>, params: Seq<Seq<char>>) -> (Seq<ChannelView>, UserView, Seq<MessageView>)
    decreases names.len(),
{
    if names.len() == 0 {
        st
    } else {
        join_one(join_all(st, names.drop_last(), params), names.last(), params)
    }
}

/// The nicknames of the users connected to this server, in order.
pub open spec fn local_nicks(us: Seq<UserView>) -> Seq<Seq<char>>
    decreases us.len(),
{
    if us.len() == 0 {
        Seq::empty()
    } else {
        local_nicks(us.drop_last()) + (if us.last().local { seq![us.last().nickname] } else { Seq::empty() })
    }
}

/// `m` for each member but `nick`, in order.
pub open spec fn member_notes(members: Seq<Seq<char>>, nick: Seq<char>, m: MessageView) -> Seq<crate::commands::DeliveryView>
    decreases members.len(),
{
    if members.len() == 0 {
        Seq::empty()
    } else {
        member_notes(members.drop_last(), nick, m)
            + (if members.last() == nick { Seq::empty() } else {
                seq![crate::commands::DeliveryView { to_peer: false, target: members.last(), message: m }]
            })
    }
}

/// The announcement of a new channel to each local user: its listing entry and
/// the end of the listing.
pub open spec fn everyone_notes(locals: Seq<Seq<char>>, name: Seq<char>) -> Seq<crate::commands::DeliveryView>
    decreases locals.len(),
{
    if locals.len() == 0 {
        Seq::empty()
    } else {
        everyone_notes(locals.drop_last(), name) + seq![
            crate::commands::DeliveryView { to_peer: false, target: locals.last(), message: rpl_list_v(name, "No topic is set"@) },
            crate::commands::DeliveryView { to_peer: false, target: locals.last(), message: rpl_list_end_v() },
        ]
    }
}

/// What joining one channel name tells the other users: a new channel is
/// announced to every local user; the other members of an existing channel get
/// its listing entry.
pub open spec fn note_one(st: (Seq<ChannelView>, UserView, Seq<MessageView>), name: Seq<char>, params: Seq<Seq<char>>, locals: Seq<Seq<char>>) -> Seq<crate::commands::DeliveryView> {
    let (chs, u, out) = st;
    let idx = channel_index(chs, name);
    if idx >= 0 {
        if join_gate(chs[idx], u, params) is None {
            let c2 = admitted(chs[idx], u.nickname);
            member_notes(c2.users, u.nickname, rpl_list_v(c2.name, topic_text(c2)))
        } else {
            Seq::empty()
        }
    } else if valid_channel_name(name) {
        everyone_notes(locals, name)
    } else {
        Seq::empty()
    }
}

/// What joining each of the names in turn tells the other users.
pub open spec fn join_notes(st: (Seq<ChannelView>, UserView, Seq<MessageView>), names: Seq<Seq<char>>, params: Seq<Seq<char>>, locals: Seq<Seq<char>>) -> Seq<crate::commands::DeliveryView>
    decreases names.len(),
{
    if names.len() == 0 {
        Seq::empty()
    } else {
        join_notes(st, names.drop_last(), params, locals)
            + note_one(join_all(st, names.drop_last(), params), names.last(), params, locals)
    }
}

/// The nicknames of the local users.
fn local_nicknames(users: &Vec<User>) -> (r: Vec<String>)
    ensures
        strs(r@) == local_nicks(usrs(users@)),
{
    let ghost us = usrs(users@);
    let mut r: Vec<String> = Vec::new();
    assert(strs(r@) =~= Seq::<Seq<char>>::empty());
    let mut i: usize = 0;
    while i < users.len()
        invariant
            i <= users@.len(),
            us == usrs(users@),
            strs(r@) == local_nicks(us.take(i as int)),
        decreases users@.len() - i,
    {
        assert(us.take(i + 1).drop_last() =~= us.take(i as int));
        assert(us.take(i + 1).last() == users@[i as int]@);
        let ghost before = strs(r@);
        if users[i].local {
            r.push(users[i].nickname.clone());
            assert(strs(r@) =~= before + seq![users@[i as int].nickname@]);
        } else {
            assert(strs(r@) =~= before + Seq::<Seq<char>>::empty());
        }
        i = i + 1;
    }
    assert(us.take(users@.len() as int) =~= us);
    r
}

/// Tells the other members of a channel its listing entry.
fn notify_members(c: &Channel, nick: &String, notices: &mut Vec<crate::commands::Delivery>)
    ensures
        crate::commands::dels(final(notices)@) == crate::commands::dels(old(notices)@)
            + member_notes(c@.users, nick@, rpl_list_v(c@.name, topic_text(c@))),
{
    let ghost start = crate::commands::dels(notices@);
    let ghost m = rpl_list_v(c@.name, topic_text(c@));
    let mut i: usize = 0;
    while i < c.users.len()
        invariant
            i <= c.users@.len(),
            m == rpl_list_v(c@.name, topic_text(c@)),
            crate::commands::dels(notices@) == start + member_notes(c@.users.take(i as int), nick@, m),
        decreases c.users@.len() - i,
    {
        assert(c@.users.take(i + 1).drop_last() =~= c@.users.take(i as int));
        assert(c@.users.take(i + 1).last() == c.users@[i as int]@);
        let ghost before = crate::commands::dels(notices@);
        if c.users[i] != *nick {
            let topic = c.get_topic();
            assert(topic@ == topic_text(c@));
            let nm = c.name.clone();
            assert(nm@ == c@.name);
            let entry = rpl_list(nm, topic);
            assert(entry@ == m);
            let target = c.users[i].clone();
            notices.push(crate::commands::Delivery { to_peer: false, target, message: entry });
            assert(crate::commands::dels(notices@) =~= before.push(crate::commands::DeliveryView { to_peer: false, target: c.users@[i as int]@, message: m }));
            assert(crate::commands::dels(notices@) =~= start + member_notes(c@.users.take(i + 1), nick@, m));
        } else {
            assert(crate::commands::dels(notices@) =~= start + member_notes(c@.users.take(i + 1), nick@, m));
        }
        i = i + 1;
    }
    assert(c@.users.take(c@.users.len() as int) =~= c@.users);
}

/// Announces a new channel to every local user.
fn notify_everyone(locals: &Vec<String>, name: &String, notices: &mut Vec<crate::commands::Delivery>)
    ensures
        crate::commands::dels(final(notices)@) == crate::commands::dels(old(notices)@) + everyone_notes(strs(locals@), name@),
{
    let ghost start = crate::commands::dels(notices@);
    let ghost ls = strs(locals@);
    let mut i: usize = 0;
    while i < locals.len()
        invariant
            i <= locals@.len(),
            ls == strs(locals@),
            crate::commands::dels(notices@) == start + everyone_notes(ls.take(i as int), name@),
        decreases locals@.len() - i,
    {
        assert(ls.take(i + 1).drop_last() =~= ls.take(i as int));
        assert(ls.take(i + 1).last() == locals@[i as int]@);
        let ghost before = crate::commands::dels(notices@);
        notices.push(crate::commands::Delivery {
            to_peer: false,
            target: locals[i].clone(),
            message: rpl_list(name.clone(), String::from_str("No topic is set")),
        });
        notices.push(crate::commands::Delivery { to_peer: false, target: locals[i].clone(), message: rpl_list_end() });
        assert(crate::commands::dels(notices@) =~= before + seq![
            crate::commands::DeliveryView { to_peer: false, target: locals@[i as int]@, message: rpl_list_v(name@, "No topic is set"@) },
            crate::commands::DeliveryView { to_peer: false, target: locals@[i as int]@, message: rpl_list_end_v() },
        ]);
        assert(crate::commands::dels(notices@) =~= start + everyone_notes(ls.take(i + 1), name@));
        i = i + 1;
    }
    assert(ls.take(locals@.len() as int) =~= ls);
}

/// Whether the string starts with `&`.
fn starts_with_amp(s: &String) -> (r: bool)
    ensures
        r == (s@.len() > 0 && s@[0] == '&'),
{
    let chars = crate::text::chars_of(s.as_str());
    chars.len() > 0 && chars[0] == '&'
}

/// JOIN: joins, or creates, each comma-separated channel of the first parameter.
#[verifier::spinoff_prover]
#[verifier::rlimit(40)]
pub fn join_msg(msg: Message, user_nickname: String, users: &mut Vec<User>, channels: &mut Vec<Channel>, notices: &mut Vec<crate::commands::Delivery>) -> (r: Result<Vec<Message>, ServerError>)
    ensures
        r is Ok,
        ({
            let nick = join_nick(msg@, user_nickname@);
            let ui = user_index(usrs(old(users)@), nick);
            let ps = msg@.parameters;
            if ui < 0 || ps.len() == 0 {
                &&& usrs(final(users)@) == usrs(old(users)@)
                &&& chans(final(channels)@) == chans(old(channels)@)
                &&& msgs(r->Ok_0@) == (if ui < 0 { Seq::<MessageView>::empty() } else { seq![err_need_more_params_v(msg@.command)] })
                &&& *final(notices) == *old(notices)
            } else {
                let init = (chans(old(channels)@), usrs(old(users)@)[ui], Seq::empty());
                let names = split_spec(ps[0], ',');
                let st = join_all(init, names, ps);
                &&& chans(final(channels)@) == st.0
                &&& usrs(final(users)@) == usrs(old(users)@).update(ui, st.1)
                &&& msgs(r->Ok_0@) == st.2
                &&& crate::commands::dels(final(notices)@) == crate::commands::dels(old(notices)@)
                    + join_notes(init, names, ps, local_nicks(usrs(old(users)@)))
            }
        }),
        crate::directory::unique_nicks(old(users)@) ==> crate::directory::unique_nicks(final(users)@),
{
    let mut rv: Vec<Message> = Vec::new();
    assert(msgs(rv@) =~= Seq::<MessageView>::empty());
    let mut nick = user_nickname;
    if msg.parameters.len() == 2 && starts_with_amp(&msg.parameters[0]) {
        nick = msg.parameters[1].clone();
    }
    let ui = match locate_user(users, &nick) {
        Some(i) => i,
        None => return Ok(rv),
    };
    if msg.parameters.len() == 0 {
        push_reply(&mut rv, err_need_more_params(msg.command));
        return Ok(rv);
    }
    let ghost users0 = usrs(users@);
    let ghost ps = msg@.parameters;
    let locals = local_nicknames(users);
    let ghost n0 = crate::commands::dels(notices@);
    let mut user = users.remove(ui);
    assert(user@ == users0[ui as int]);
    let names = split_char(msg.parameters[0].as_str(), ',');
    let ghost init = (chans(channels@), user@, msgs(rv@));
    let mut k: usize = 0;
    while k < names.len()
        invariant
            k <= names@.len(),
            ps == msg@.parameters,
            ps.len() > 0,
            strs(names@) == split_spec(ps[0], ','),
            (chans(channels@), user@, msgs(rv@)) == join_all(init, strs(names@).take(k as int), ps),
            crate::commands::dels(notices@) == n0 + join_notes(init, strs(names@).take(k as int), ps, strs(locals@)),
            user@.nickname == init.1.nickname,
            user@.username == init.1.username,
            user@.hostname == init.1.hostname,
        decreases names@.len() - k,
    {
        let name = &names[k];
        let ghost before = (chans(channels@), user@, msgs(rv@));
        assert(strs(names@).take(k + 1).drop_last() =~= strs(names@).take(k as int));
        assert(strs(names@).take(k + 1).last() == name@);
        match locate_channel(channels, name) {
            Some(i) => {
                let ghost chs0 = channels@;
                let mut ch = channels.remove(i);
                assert(ch@ == before.0[i as int]);
                let replies = add_user_to_channel(&mut ch, &mut user, crate::message::copy_strings(&msg.parameters));
                if replies.len() > 1 {
                    assert(join_gate(before.0[i as int], before.1, ps) is None) by {
                        if join_gate(before.0[i as int], before.1, ps) is Some {
                            assert(msgs(replies@).len() == 1);
                        }
                    }
                    notify_members(&ch, &user.nickname, notices);
                } else {
                    assert(join_gate(before.0[i as int], before.1, ps) is Some) by {
                        if join_gate(before.0[i as int], before.1, ps) is None {
                            assert(msgs(replies@).len() >= 3);
                        }
                    }
                    assert(crate::commands::dels(notices@) =~= crate::commands::dels(notices@) + Seq::<crate::commands::DeliveryView>::empty());
                }
                channels.insert(i, ch);
                assert(chans(channels@) =~= before.0.update(i as int, ch@));
                append_replies(&mut rv, replies);
            },
            None => {
                match create_valid_channel(name.clone()) {
                    Err(_) => {
                        push_reply(&mut rv, err_no_such_channel(name.clone()));
                        assert(crate::commands::dels(notices@) =~= crate::commands::dels(notices@) + Seq::<crate::commands::DeliveryView>::empty());
                    },
                    Ok(ch) => {
                        let mut ch = ch;
                        ch.add_user(user.nickname.clone());
                        user.add_channel(name);
                        ch.add_admin(user.nickname.clone());
                        assert(ch@.users =~= seq![user@.nickname]);
                        assert(ch@.admins =~= seq![user@.nickname]);
                        assert(ch@.bans =~= Seq::<Seq<char>>::empty());
                        assert(ch@.speakers =~= Seq::<Seq<char>>::empty());
                        assert(ch@ == new_channel_view(name@, user@.nickname));
                        push_reply(&mut rv, rpl_topic(ch.name.clone(), String::new()));
                        push_reply(&mut rv, rpl_name_rply(ch.name.clone(), crate::message::copy_strings(&ch.users)));
                        push_reply(&mut rv, rpl_end_of_names(ch.name.clone()));
                        notify_everyone(&locals, name, notices);
                        let ghost chs0 = channels@;
                        channels.push(ch);
                        assert(chans(channels@) =~= chans(chs0).push(ch@));
                        assert(msgs(rv@) =~= before.2 + join_replies(ch@));
                    },
                }
            },
        }
        k = k + 1;
    }
    assert(strs(names@).take(names@.len() as int) =~= strs(names@));
    users.insert(ui, user);
    assert(usrs(users@) =~= users0.update(ui as int, user@));
    Ok(rv)
}


/// The channel after a member leaves: it loses its membership, operator rights
/// and voice.
pub open spec fn departed(c: ChannelView, nick: Seq<char>) -> ChannelView {
    ChannelView {
        users: remove_first(c.users, nick),
        admins: remove_first(c.admins, nick),
        speakers: remove_first(c.speakers, nick),
        ..c
    }
}

/// The channels after a member leaves the `idx`-th: the channel goes away with
/// its last member.
pub open spec fn after_leave(chs: Seq<ChannelView>, idx: int, nick: Seq<char>) -> Seq<ChannelView> {
    let c = departed(chs[idx], nick);
    if c.users.len() == 0 { chs.remove(idx) } else { chs.update(idx, c) }
}

/// What leaving one channel name does to the channels, the leaving user and the
/// replies so far.
pub open spec fn part_one(st: (Seq<ChannelView>, UserView, Seq<MessageView>), name: Seq<char>) -> (Seq<ChannelView>, UserView, Seq<MessageView>) {
    let (chs, u, out) = st;
    let idx = channel_index(chs, name);
    if idx >= 0 {
        if chs[idx].users.contains(u.nickname) {
            (after_leave(chs, idx, u.nickname), UserView { channels: remove_first(u.channels, name), ..u }, out)
        } else {
            (chs, u, out.push(err_not_on_channel_v(name)))
        }
    } else {
        (chs, u, out.push(err_no_such_channel_v(name)))
    }
}

/// Leaving each of the names in turn.
pub open spec fn part_all(st: (Seq<ChannelView>, UserView, Seq<MessageView>), names: Seq<Seq<char>>) -> (Seq<ChannelView>, UserView, Seq<MessageView>)
    decreases names.len(),
{
    if names.len() == 0 {
        st
    } else {
        part_one(part_all(st, names.drop_last()), names.last())
    }
}

/// PART: leaves each comma-separated channel of the first parameter.
pub fn part_msg(msg: Message, user_nickname: String, users: &mut Vec<User>, channels: &mut Vec<Channel>) -> (r: Result<Vec<Message>, ServerError>)
    ensures
        r is Ok,
        ({
            let ui = user_index(usrs(old(users)@), user_nickname@);
            let ps = msg@.parameters;
            if ui < 0 || ps.len() == 0 {
                &&& usrs(final(users)@) == usrs(old(users)@)
                &&& chans(final(channels)@) == chans(old(channels)@)
                &&& msgs(r->Ok_0@) == (if ui < 0 { Seq::<MessageView>::empty() } else { seq![err_need_more_params_v(msg@.command)] })
            } else {
                let st = part_all((chans(old(channels)@), usrs(old(users)@)[ui], Seq::empty()), split_spec(ps[0], ','));
                &&& chans(final(channels)@) == st.0
                &&& usrs(final(users)@) == usrs(old(users)@).update(ui, st.1)
                &&& msgs(r->Ok_0@) == st.2
            }
        }),
        crate::directory::unique_nicks(old(users)@) ==> crate::directory::unique_nicks(final(users)@),
{
    let mut rv: Vec<Message> = Vec::new();
    assert(msgs(rv@) =~= Seq::<MessageView>::empty());
    let ui = match locate_user(users, &user_nickname) {
        Some(i) => i,
        None => return Ok(rv),
    };
    if msg.parameters.len() == 0 {
        push_reply(&mut rv, err_need_more_params(msg.command));
        return Ok(rv);
    }
    let ghost users0 = usrs(users@);
    let ghost ps = msg@.parameters;
    let mut user = users.remove(ui);
    assert(user@ == users0[ui as int]);
    proof { lemma_user_index_found(users0, user_nickname@); }
    let names = split_char(msg.parameters[0].as_str(), ',');
    let ghost init = (chans(channels@), user@, msgs(rv@));
    let mut k: usize = 0;
    while k < names.len()
        invariant
            k <= names@.len(),
            ps == msg@.parameters,
            ps.len() > 0,
            strs(names@) == split_spec(ps[0], ','),
            (chans(channels@), user@, msgs(rv@)) == part_all(init, strs(names@).take(k as int)),
            user@.nickname == init.1.nickname,
            user_nickname@ == init.1.nickname,
        decreases names@.len() - k,
    {
        let name = &names[k];
        let ghost before = (chans(channels@), user@, msgs(rv@));
        assert(strs(names@).take(k + 1).drop_last() =~= strs(names@).take(k as int));
        assert(strs(names@).take(k + 1).last() == name@);
        match locate_channel(channels, name) {
            Some(i) => {
                if channels[i].has_user(&user_nickname) {
                    let mut ch = channels.remove(i);
                    assert(ch@ == before.0[i as int]);
                    ch.remove_user(&user_nickname);
                    user.leave_channel(name);
                    assert(ch@ == departed(before.0[i as int], user_nickname@));
                    if ch.users.len() > 0 {
                        channels.insert(i, ch);
                        assert(chans(channels@) =~= before.0.update(i as int, ch@));
                    } else {
                        assert(chans(channels@) =~= before.0.remove(i as int));
                    }
                } else {
                    push_reply(&mut rv, err_not_on_channel(name.clone()));
                }
            },
            None => {
                push_reply(&mut rv, err_no_such_channel(name.clone()));
            },
        }
        k = k + 1;
    }
    assert(strs(names@).take(names@.len() as int) =~= strs(names@));
    users.insert(ui, user);
    assert(usrs(users@) =~= users0.update(ui as int, user@));
    proof {
        assert forall|i: int| 0 <= i < users@.len() implies #[trigger] users@[i].nickname@ == old(users)@[i].nickname@ by {
            assert(usrs(users@)[i].nickname == users@[i].nickname@);
            assert(usrs(old(users)@)[i].nickname == old(users)@[i].nickname@);
        }
        crate::directory::lemma_same_nicks(old(users)@, users@);
    }
    Ok(rv)
}


/// What INVITE does: the channels, the users and the replies.
pub open spec fn invite_spec(chs: Seq<ChannelView>, us: Seq<UserView>, nick: Seq<char>, m: MessageView) -> (Seq<ChannelView>, Seq<UserView>, Seq<MessageView>) {
    let ps = m.parameters;
    if ps.len() != 2 {
        (chs, us, seq![err_need_more_params_v(m.command)])
    } else {
        let ui = user_index(us, ps[0]);
        let ci = channel_index(chs, ps[1]);
        if ui < 0 {
            (chs, us, seq![error_no_such_nick_v(ps[0])])
        } else if ci < 0 {
            (chs, us, seq![error_no_such_nick_v(ps[1])])
        } else {
            let c = chs[ci];
            let u = us[ui];
            if !c.users.contains(nick) {
                (chs, us, seq![err_not_on_channel_v(c.name)])
            } else if c.users.contains(u.nickname) {
                (chs, us, seq![err_user_on_channel_v(u.nickname, c.name)])
            } else if c.mode.i && !c.admins.contains(nick) {
                (chs, us, seq![err_chan_opriv_is_needed_v(c.name)])
            } else if c.mode.l && !(c.limit is Some && c.limit->0 > c.users.len()) {
                (chs, us, seq![err_channel_is_full_v(c.name)])
            } else if any_mask_bans(c.bans, u.username, u.hostname) {
                (chs, us, seq![err_banned_from_chan_v(c.name)])
            } else {
                (chs.update(ci, admitted(c, u.nickname)),
                 us.update(ui, UserView { channels: add_once(u.channels, ps[1]), ..u }),
                 seq![rpl_inviting_v(u.nickname, c.name)])
            }
        }
    }
}

/// INVITE `<nick> <channel>`: a member adds another user to the channel.
pub fn invite_msg(msg: Message, users: &mut Vec<User>, nick: String, channels: &mut Vec<Channel>) -> (r: Result<Vec<Message>, ServerError>)
    ensures
        r is Ok,
        chans(final(channels)@) == invite_spec(chans(old(channels)@), usrs(old(users)@), nick@, msg@).0,
        usrs(final(users)@) == invite_spec(chans(old(channels)@), usrs(old(users)@), nick@, msg@).1,
        msgs(r->Ok_0@) == invite_spec(chans(old(channels)@), usrs(old(users)@), nick@, msg@).2,
        crate::directory::unique_nicks(old(users)@) ==> crate::directory::unique_nicks(final(users)@),
{
    let mut rv: Vec<Message> = Vec::new();
    assert(msgs(rv@) =~= Seq::<MessageView>::empty());
    if msg.parameters.len() != 2 {
        push_reply(&mut rv, err_need_more_params(msg.command));
        return Ok(rv);
    }
    let ui = match locate_user(users, &msg.parameters[0]) {
        Some(i) => i,
        None => {
            push_reply(&mut rv, error_no_such_nick(msg.parameters[0].clone()));
            return Ok(rv);
        },
    };
    let ci = match locate_channel(channels, &msg.parameters[1]) {
        Some(i) => i,
        None => {
            push_reply(&mut rv, error_no_such_nick(msg.parameters[1].clone()));
            return Ok(rv);
        },
    };
    let ghost users0 = usrs(users@);
    let ghost chs0 = chans(channels@);
    if !channels[ci].has_user(&nick) {
        push_reply(&mut rv, err_not_on_channel(channels[ci].name.clone()));
    } else if channels[ci].has_user(&users[ui].nickname) {
        push_reply(&mut rv, err_user_on_channel(users[ui].nickname.clone(), channels[ci].name.clone()));
    } else if channels[ci].is_invite_only() && !channels[ci].is_admin(&nick) {
        push_reply(&mut rv, err_chan_opriv_is_needed(channels[ci].name.clone()));
    } else if channels[ci].has_limit() && !channels[ci].has_free_space() {
        push_reply(&mut rv, err_channel_is_full(channels[ci].name.clone()));
    } else if channels[ci].is_banned(&users[ui].username, &users[ui].hostname) {
        push_reply(&mut rv, err_banned_from_chan(channels[ci].name.clone()));
    } else {
        let mut ch = channels.remove(ci);
        let mut invited = users.remove(ui);
        assert(ch@ == chs0[ci as int]);
        assert(invited@ == users0[ui as int]);
        ch.add_user(invited.nickname.clone());
        invited.add_channel(&msg.parameters[1]);
        push_reply(&mut rv, rpl_inviting(invited.nickname.clone(), ch.name.clone()));
        channels.insert(ci, ch);
        users.insert(ui, invited);
        assert(chans(channels@) =~= chs0.update(ci as int, ch@));
        assert(usrs(users@) =~= users0.update(ui as int, invited@));
    }
    proof {
        assert forall|i: int| 0 <= i < users@.len() implies #[trigger] users@[i].nickname@ == old(users)@[i].nickname@ by {
            assert(usrs(users@)[i].nickname == users@[i].nickname@);
            assert(usrs(old(users)@)[i].nickname == old(users)@[i].nickname@);
        }
        crate::directory::lemma_same_nicks(old(users)@, users@);
    }
    Ok(rv)
}

/// What TOPIC does to the channels, and its replies.
pub open spec fn topic_spec(chs: Seq<ChannelView>, nick: Seq<char>, m: MessageView) -> (Seq<ChannelView>, Seq<MessageView>) {
    let ps = m.parameters;
    if ps.len() == 0 {
        (chs, seq![err_need_more_params_v(m.command)])
    } else {
        let ci = channel_index(chs, ps[0]);
        if ci < 0 {
            (chs, Seq::empty())
        } else {
            let c = chs[ci];
            if ps.len() == 1 {
                if !c.users.contains(nick) {
                    (chs, seq![err_not_on_channel_v(c.name)])
                } else if c.topic is Some {
                    (chs, seq![rpl_topic_v(c.name, topic_text(c))])
                } else {
                    (chs, seq![rpl_no_topic_v(c.name)])
                }
            } else if ps.len() == 2 {
                if (c.mode.t && c.admins.contains(nick)) || (!c.mode.t && c.users.contains(nick)) {
                    (chs.update(ci, ChannelView { topic: Some(ps[1]), ..c }), seq![rpl_topic_v(c.name, ps[1])])
                } else {
                    (chs, seq![err_chan_opriv_is_needed_v(c.name)])
                }
            } else {
                (chs, Seq::empty())
            }
        }
    }
}

/// TOPIC `<channel> [<topic>]`: shows or changes a channel's topic.
pub fn topic_msg(msg: Message, nick: String, channels: &mut Vec<Channel>) -> (r: Result<Vec<Message>, ServerError>)
    ensures
        r is Ok,
        chans(final(channels)@) == topic_spec(chans(old(channels)@), nick@, msg@).0,
        msgs(r->Ok_0@) == topic_spec(chans(old(channels)@), nick@, msg@).1,
{
    let mut rv: Vec<Message> = Vec::new();
    assert(msgs(rv@) =~= Seq::<MessageView>::empty());
    if msg.parameters.len() == 0 {
        push_reply(&mut rv, err_need_more_params(msg.command));
        return Ok(rv);
    }
    let ci = match locate_channel(channels, &msg.parameters[0]) {
        Some(i) => i,
        None => return Ok(rv),
    };
    let ghost chs0 = chans(channels@);
    if msg.parameters.len() == 1 {
        if !channels[ci].has_user(&nick) {
            push_reply(&mut rv, err_not_on_channel(channels[ci].name.clone()));
        } else if channels[ci].has_topic() {
            push_reply(&mut rv, rpl_topic(channels[ci].name.clone(), channels[ci].get_topic()));
        } else {
            push_reply(&mut rv, rpl_no_topic(channels[ci].name.clone()));
        }
    } else if msg.parameters.len() == 2 {
        let t = channels[ci].is_topic_operator_only();
        if (t && channels[ci].is_admin(&nick)) || (!t && channels[ci].has_user(&nick)) {
            let mut ch = channels.remove(ci);
            assert(ch@ == chs0[ci as int]);
            ch.change_topic(msg.parameters[1].clone());
            push_reply(&mut rv, rpl_topic(ch.name.clone(), ch.get_topic()));
            channels.insert(ci, ch);
            assert(chans(channels@) =~= chs0.update(ci as int, ch@));
        } else {
            push_reply(&mut rv, err_chan_opriv_is_needed(channels[ci].name.clone()));
        }
    }
    Ok(rv)
}

/// What MODE does to the channels, and its replies.
pub open spec fn mode_spec(chs: Seq<ChannelView>, nick: Seq<char>, m: MessageView) -> (Seq<ChannelView>, Seq<MessageView>) {
    let ps = m.parameters;
    if ps.len() < 2 {
        (chs, seq![err_need_more_params_v(m.command)])
    } else {
        let ci = channel_index(chs, ps[0]);
        if ci < 0 {
            (chs, seq![err_no_such_channel_v(ps[0])])
        } else if !chs[ci].admins.contains(nick) {
            (chs, seq![err_chan_opriv_is_needed_v(chs[ci].name)])
        } else if ps[1].len() == 0 {
            (chs, seq![err_need_more_params_v(m.command)])
        } else if ps[1][0] == '+' || ps[1][0] == '-' {
            let a = crate::channel::apply_modes(chs[ci], m, crate::channel::after_first(ps[1]), ps[1][0] == '+', Seq::empty());
            (chs.update(ci, a.0), a.1)
        } else {
            (chs, seq![err_unknown_mode_v(ps[1][0])])
        }
    }
}

/// MODE `<channel> <+|-><letters> [<argument>]`: a channel operator switches modes.
pub fn mode_msg(msg: Message, nick: String, channels: &mut Vec<Channel>) -> (r: Result<Vec<Message>, ServerError>)
    ensures
        r is Ok,
        chans(final(channels)@) == mode_spec(chans(old(channels)@), nick@, msg@).0,
        msgs(r->Ok_0@) == mode_spec(chans(old(channels)@), nick@, msg@).1,
{
    let mut rv: Vec<Message> = Vec::new();
    assert(msgs(rv@) =~= Seq::<MessageView>::empty());
    if msg.parameters.len() < 2 {
        push_reply(&mut rv, err_need_more_params(msg.command));
        return Ok(rv);
    }
    let ci = match locate_channel(channels, &msg.parameters[0]) {
        Some(i) => i,
        None => {
            push_reply(&mut rv, err_no_such_channel(msg.parameters[0].clone()));
            return Ok(rv);
        },
    };
    let ghost chs0 = chans(channels@);
    if !channels[ci].is_admin(&nick) {
        push_reply(&mut rv, err_chan_opriv_is_needed(channels[ci].name.clone()));
        return Ok(rv);
    }
    if msg.parameters[1].as_str().is_empty() {
        push_reply(&mut rv, err_need_more_params(msg.command));
        return Ok(rv);
    }
    let flags = crate::text::chars_of(msg.parameters[1].as_str());
    let flag = flags[0];
    if flag == '+' || flag == '-' {
        let mut ch = channels.remove(ci);
        assert(ch@ == chs0[ci as int]);
        let rv = if flag == '+' {
            ch.activate_modes(msg, rv)
        } else {
            ch.deactivate_modes(msg, rv)
        };
        channels.insert(ci, ch);
        assert(chans(channels@) =~= chs0.update(ci as int, ch@));
        Ok(rv)
    } else {
        push_reply(&mut rv, err_unknown_mode(flag));
        Ok(rv)
    }
}

/// What KICK does: the channels, the users and the replies.
pub open spec fn kick_spec(chs: Seq<ChannelView>, us: Seq<UserView>, nick: Seq<char>, m: MessageView) -> (Seq<ChannelView>, Seq<UserView>, Seq<MessageView>) {
    let ps = m.parameters;
    if ps.len() < 2 {
        (chs, us, seq![err_need_more_params_v(m.command)])
    } else {
        let ci = channel_index(chs, ps[0]);
        if ci < 0 {
            (chs, us, seq![err_no_such_channel_v(ps[0])])
        } else if !chs[ci].admins.contains(nick) {
            (chs, us, seq![err_chan_opriv_is_needed_v(chs[ci].name)])
        } else {
            let ki = user_index(us, ps[1]);
            let us2 = if ki >= 0 {
                us.update(ki, UserView { channels: remove_first(us[ki].channels, chs[ci].name), ..us[ki] })
            } else {
                us
            };
            (chs.update(ci, departed(chs[ci], ps[1])), us2, Seq::empty())
        }
    }
}

/// KICK `<channel> <nick>`: a channel operator removes a member.
pub fn kick_msg(msg: Message, users: &mut Vec<User>, channels: &mut Vec<Channel>, nick: &String) -> (r: Result<Vec<Message>, ServerError>)
    ensures
        r is Err <==> (msg@.parameters.len() >= 2 && user_index(usrs(old(users)@), nick@) < 0),
        r is Err ==> *final(users) == *old(users) && *final(channels) == *old(channels),
        r is Ok ==> chans(final(channels)@) == kick_spec(chans(old(channels)@), usrs(old(users)@), nick@, msg@).0,
        r is Ok ==> usrs(final(users)@) == kick_spec(chans(old(channels)@), usrs(old(users)@), nick@, msg@).1,
        r is Ok ==> msgs(r->Ok_0@) == kick_spec(chans(old(channels)@), usrs(old(users)@), nick@, msg@).2,
        crate::directory::unique_nicks(old(users)@) ==> crate::directory::unique_nicks(final(users)@),
{
    let mut rv: Vec<Message> = Vec::new();
    assert(msgs(rv@) =~= Seq::<MessageView>::empty());
    if msg.parameters.len() < 2 {
        push_reply(&mut rv, err_need_more_params(msg.command));
        return Ok(rv);
    }
    if locate_user(users, nick).is_none() {
        return Err(ServerError::new("Cannot obtain current user"));
    }
    let ci = match locate_channel(channels, &msg.parameters[0]) {
        Some(i) => i,
        None => {
            push_reply(&mut rv, err_no_such_channel(msg.parameters[0].clone()));
            return Ok(rv);
        },
    };
    let ghost chs0 = chans(channels@);
    let ghost users0 = usrs(users@);
    if !channels[ci].is_admin(nick) {
        push_reply(&mut rv, err_chan_opriv_is_needed(channels[ci].name.clone()));
        return Ok(rv);
    }
    let mut ch = channels.remove(ci);
    assert(ch@ == chs0[ci as int]);
    match locate_user(users, &msg.parameters[1]) {
        Some(ki) => {
            let mut kicked = users.remove(ki);
            assert(kicked@ == users0[ki as int]);
            kicked.leave_channel(&ch.name);
            users.insert(ki, kicked);
            assert(usrs(users@) =~= users0.update(ki as int, kicked@));
        },
        None => {},
    }
    ch.remove_user(&msg.parameters[1]);
    channels.insert(ci, ch);
    assert(chans(channels@) =~= chs0.update(ci as int, ch@));
    proof {
        assert forall|i: int| 0 <= i < users@.len() implies #[trigger] users@[i].nickname@ == old(users)@[i].nickname@ by {
            assert(usrs(users@)[i].nickname == users@[i].nickname@);
            assert(usrs(old(users)@)[i].nickname == old(users)@[i].nickname@);
        }
        crate::directory::lemma_same_nicks(old(users)@, users@);
    }
    Ok(rv)
}


/// The listing entries of every channel, in order.
pub open spec fn list_all(chs: Seq<ChannelView>, nick: Seq<char>) -> Seq<MessageView>
    decreases chs.len(),
{
    if chs.len() == 0 {
        Seq::empty()
    } else {
        list_all(chs.drop_last(), nick) + list_entry(chs.last(), nick)
    }
}

/// The listing entries of the named channels that exist, in the order named.
pub open spec fn list_named(chs: Seq<ChannelView>, names: Seq<Seq<char>>, nick: Seq<char>) -> Seq<MessageView>
    decreases names.len(),
{
    if names.len() == 0 {
        Seq::empty()
    } else {
        let ci = channel_index(chs, names.last());
        list_named(chs, names.drop_last(), nick)
            + (if ci >= 0 { list_entry(chs[ci], nick) } else { Seq::empty() })
    }
}

/// The replies to LIST: start, the entries, end.
pub open spec fn list_spec(chs: Seq<ChannelView>, nick: Seq<char>, m: MessageView) -> Seq<MessageView> {
    seq![rpl_list_start_v()]
        + (if m.parameters.len() == 0 { list_all(chs, nick) } else { list_named(chs, split_spec(m.parameters[0], ','), nick) })
        + seq![rpl_list_end_v()]
}

/// LIST `[<channels>]`: lists every channel, or the named ones, as the user may
/// see them.
pub fn list_msg(msg: Message, nick: String, users: &Vec<User>, channels: &Vec<Channel>) -> (r: Result<Vec<Message>, ServerError>)
    ensures
        r is Err <==> user_index(usrs(users@), nick@) < 0,
        r is Ok ==> msgs(r->Ok_0@) == list_spec(chans(channels@), nick@, msg@),
{
    let ui = match locate_user(users, &nick) {
        Some(i) => i,
        None => return Err(ServerError::new("Cannot obtain current user")),
    };
    proof { lemma_user_index_found(usrs(users@), nick@); }
    let user = &users[ui];
    let mut rv: Vec<Message> = Vec::new();
    assert(msgs(rv@) =~= Seq::<MessageView>::empty());
    push_reply(&mut rv, rpl_list_start());
    let ghost start = msgs(rv@);
    let ghost chs = chans(channels@);
    if msg.parameters.len() == 0 {
        let mut i: usize = 0;
        while i < channels.len()
            invariant
                i <= channels@.len(),
                chs == chans(channels@),
                user.nickname@ == nick@,
                msgs(rv@) == start + list_all(chs.take(i as int), nick@),
            decreases channels@.len() - i,
        {
            list_channel(&channels[i], user, &mut rv);
            assert(chs.take(i + 1).drop_last() =~= chs.take(i as int));
            assert(msgs(rv@) =~= start + list_all(chs.take(i + 1), nick@));
            i = i + 1;
        }
        assert(chs.take(channels@.len() as int) =~= chs);
    } else {
        let names = split_char(msg.parameters[0].as_str(), ',');
        let mut k: usize = 0;
        while k < names.len()
            invariant
                k <= names@.len(),
                chs == chans(channels@),
                user.nickname@ == nick@,
                msgs(rv@) == start + list_named(chs, strs(names@).take(k as int), nick@),
            decreases names@.len() - k,
        {
            assert(strs(names@).take(k + 1).drop_last() =~= strs(names@).take(k as int));
            assert(strs(names@).take(k + 1).last() == names@[k as int]@);
            match locate_channel(channels, &names[k]) {
                Some(ci) => {
                    list_channel(&channels[ci], user, &mut rv);
                },
                None => {},
            }
            assert(msgs(rv@) =~= start + list_named(chs, strs(names@).take(k + 1), nick@));
            k = k + 1;
        }
        assert(strs(names@).take(names@.len() as int) =~= strs(names@));
    }
    push_reply(&mut rv, rpl_list_end());
    Ok(rv)
}

/// Whether a user sees a channel's names: it is a member, or the channel is
/// neither private nor secret.
pub open spec fn sees(c: ChannelView, nick: Seq<char>) -> bool {
    c.users.contains(nick) || (!c.mode.p && !c.mode.s)
}

/// The members of a channel when the user sees it.
pub fn names_channel(channel: &Channel, user: &User) -> (r: Option<Vec<String>>)
    ensures
        r is Some <==> sees(channel@, user.nickname@),
        r is Some ==> strs(r->0@) == channel@.users,
{
    if channel.has_user(&user.nickname) || channel.is_visible() {
        Some(crate::message::copy_strings(&channel.users))
    } else {
        None
    }
}

/// The names replies of one channel: members and end of names.
pub open spec fn names_of(c: ChannelView) -> Seq<MessageView> {
    seq![rpl_name_rply_v(c.name, c.users), rpl_end_of_names_v(c.name)]
}

/// The names replies of every channel the user sees, in order.
pub open spec fn names_all(chs: Seq<ChannelView>, nick: Seq<char>) -> Seq<MessageView>
    decreases chs.len(),
{
    if chs.len() == 0 {
        Seq::empty()
    } else {
        names_all(chs.drop_last(), nick) + (if sees(chs.last(), nick) { names_of(chs.last()) } else { Seq::empty() })
    }
}

/// The names replies of the named channels that exist and that the user sees.
pub open spec fn names_named(chs: Seq<ChannelView>, names: Seq<Seq<char>>, nick: Seq<char>) -> Seq<MessageView>
    decreases names.len(),
{
    if names.len() == 0 {
        Seq::empty()
    } else {
        let ci = channel_index(chs, names.last());
        names_named(chs, names.drop_last(), nick)
            + (if ci >= 0 && sees(chs[ci], nick) { names_of(chs[ci]) } else { Seq::empty() })
    }
}

/// Whether a nickname is listed by some channel the user sees.
pub open spec fn listed(chs: Seq<ChannelView>, viewer: Seq<char>, nick: Seq<char>) -> bool {
    exists|i: int| 0 <= i < chs.len() && sees(chs[i], viewer) && #[trigger] chs[i].users.contains(nick)
}

/// The nicknames that no seen channel lists (or that joined no channel), in
/// directory order.
pub open spec fn unlisted(chs: Seq<ChannelView>, us: Seq<UserView>, viewer: Seq<char>) -> Seq<Seq<char>>
    decreases us.len(),
{
    if us.len() == 0 {
        Seq::empty()
    } else {
        let u = us.last();
        unlisted(chs, us.drop_last(), viewer)
            + (if u.channels.len() == 0 || !listed(chs, viewer, u.nickname) { seq![u.nickname] } else { Seq::empty() })
    }
}

/// The replies to NAMES.
pub open spec fn names_spec(chs: Seq<ChannelView>, us: Seq<UserView>, nick: Seq<char>, m: MessageView) -> Seq<MessageView> {
    if m.parameters.len() == 0 {
        let rest = unlisted(chs, us, nick);
        names_all(chs, nick) + (if rest.len() > 0 {
            seq![rpl_name_rply_v("*"@, rest), rpl_end_of_names_v("*"@)]
        } else {
            Seq::empty()
        })
    } else {
        names_named(chs, split_spec(m.parameters[0], ','), nick)
    }
}

/// Whether some seen channel among the first `n` lists the nickname.
fn is_listed(channels: &Vec<Channel>, viewer: &String, nick: &String) -> (r: bool)
    ensures
        r == listed(chans(channels@), viewer@, nick@),
{
    let ghost chs = chans(channels@);
    let mut i: usize = 0;
    while i < channels.len()
        invariant
            i <= channels@.len(),
            chs == chans(channels@),
            forall|j: int| 0 <= j < i ==> !(sees(chs[j], viewer@) && #[trigger] chs[j].users.contains(nick@)),
        decreases channels@.len() - i,
    {
        let c = &channels[i];
        if (c.has_user(viewer) || c.is_visible()) && c.has_user(nick) {
            assert(sees(chs[i as int], viewer@) && chs[i as int].users.contains(nick@));
            return true;
        }
        i = i + 1;
    }
    false
}

/// NAMES `[<channels>]`: the members of the channels the user sees; without
/// arguments also one `*` entry for the users no seen channel lists.
pub fn names_msg(msg: Message, users: &Vec<User>, nick: String, channels: &Vec<Channel>) -> (r: Result<Vec<Message>, ServerError>)
    ensures
        r is Err <==> user_index(usrs(users@), nick@) < 0,
        r is Ok ==> msgs(r->Ok_0@) == names_spec(chans(channels@), usrs(users@), nick@, msg@),
{
    let ui = match locate_user(users, &nick) {
        Some(i) => i,
        None => return Err(ServerError::new("Cannot obtain current user")),
    };
    proof { lemma_user_index_found(usrs(users@), nick@); }
    let mut rv: Vec<Message> = Vec::new();
    assert(msgs(rv@) =~= Seq::<MessageView>::empty());
    let ghost chs = chans(channels@);
    let ghost us = usrs(users@);
    if msg.parameters.len() == 0 {
        let mut i: usize = 0;
        while i < channels.len()
            invariant
                i <= channels@.len(),
                chs == chans(channels@),
                msgs(rv@) == names_all(chs.take(i as int), nick@),
            decreases channels@.len() - i,
        {
            let c = &channels[i];
            assert(chs.take(i + 1).drop_last() =~= chs.take(i as int));
            if c.has_user(&nick) || c.is_visible() {
                push_reply(&mut rv, rpl_name_rply(c.name.clone(), crate::message::copy_strings(&c.users)));
                push_reply(&mut rv, rpl_end_of_names(c.name.clone()));
            }
            assert(msgs(rv@) =~= names_all(chs.take(i + 1), nick@));
            i = i + 1;
        }
        assert(chs.take(channels@.len() as int) =~= chs);
        let mut rest: Vec<String> = Vec::new();
        let mut j: usize = 0;
        while j < users.len()
            invariant
                j <= users@.len(),
                chs == chans(channels@),
                us == usrs(users@),
                strs(rest@) == unlisted(chs, us.take(j as int), nick@),
            decreases users@.len() - j,
        {
            let u = &users[j];
            assert(us.take(j + 1).drop_last() =~= us.take(j as int));
            let ghost before = rest@;
            if u.channels.len() == 0 || !is_listed(channels, &nick, &u.nickname) {
                rest.push(u.nickname.clone());
                assert(strs(rest@) =~= strs(before) + seq![u.nickname@]);
            } else {
                assert(strs(rest@) =~= strs(before) + Seq::<Seq<char>>::empty());
            }
            j = j + 1;
        }
        assert(us.take(users@.len() as int) =~= us);
        if rest.len() > 0 {
            let star = String::from_str("*");
            push_reply(&mut rv, rpl_name_rply(star, rest));
            push_reply(&mut rv, rpl_end_of_names(String::from_str("*")));
        } else {
            assert(msgs(rv@) =~= msgs(rv@) + Seq::<MessageView>::empty());
        }
    } else {
        let names = split_char(msg.parameters[0].as_str(), ',');
        let mut k: usize = 0;
        while k < names.len()
            invariant
                k <= names@.len(),
                chs == chans(channels@),
                msgs(rv@) == names_named(chs, strs(names@).take(k as int), nick@),
            decreases names@.len() - k,
        {
            assert(strs(names@).take(k + 1).drop_last() =~= strs(names@).take(k as int));
            assert(strs(names@).take(k + 1).last() == names@[k as int]@);
            let ghost before = msgs(rv@);
            match locate_channel(channels, &names[k]) {
                Some(ci) => {
                    let c = &channels[ci];
                    if c.has_user(&nick) || c.is_visible() {
                        push_reply(&mut rv, rpl_name_rply(c.name.clone(), crate::message::copy_strings(&c.users)));
                        push_reply(&mut rv, rpl_end_of_names(c.name.clone()));
                    }
                },
                None => {},
            }
            assert(msgs(rv@) =~= names_named(chs, strs(names@).take(k + 1), nick@));
            k = k + 1;
        }
        assert(strs(names@).take(names@.len() as int) =~= strs(names@));
    }
    Ok(rv)
}


/// The position of the first user with that user name and password, or -1.
pub open spec fn credentials_index(us: Seq<UserView>, username: Seq<char>, password: Seq<char>) -> int
    decreases us.len(),
{
    if us.len() == 0 {
        -1
    } else {
        let k = credentials_index(us.drop_last(), username, password);
        if k >= 0 { k } else if us.last().username == username && us.last().password == password { us.len() - 1 } else { -1 }
    }
}

/// The position of the first channel that has that member, or -1.
pub open spec fn member_channel_index(chs: Seq<ChannelView>, nick: Seq<char>) -> int
    decreases chs.len(),
{
    if chs.len() == 0 {
        -1
    } else {
        let k = member_channel_index(chs.drop_last(), nick);
        if k >= 0 { k } else if chs.last().users.contains(nick) { chs.len() - 1 } else { -1 }
    }
}

/// What OPERCH does to the channels, and its replies: the user named by the
/// credentials becomes an operator of the first channel it belongs to, which
/// moves to the end of the list.
pub open spec fn oper_ch_spec(chs: Seq<ChannelView>, us: Seq<UserView>, m: MessageView) -> (Seq<ChannelView>, Seq<MessageView>) {
    let ps = m.parameters;
    if ps.len() != 3 {
        (chs, seq![err_need_more_params_v(m.command)])
    } else {
        let ai = credentials_index(us, ps[1], ps[2]);
        if ai < 0 {
            (chs, seq![err_no_oper_host_v()])
        } else {
            let ci = member_channel_index(chs, us[ai].nickname);
            if ci < 0 {
                (chs, seq![err_no_oper_host_v()])
            } else {
                let c = chs[ci];
                (chs.remove(ci).push(ChannelView { admins: add_once(c.admins, us[ai].nickname), ..c }),
                 seq![rpl_you_are_oper_v()])
            }
        }
    }
}

/// OPERCH `<channel> <user> <password>`: grants channel operator rights to the
/// user those credentials name.
pub fn oper_ch_msg(msg: Message, users: &Vec<User>, channels: &mut Vec<Channel>, nickname: String) -> (r: Result<Vec<Message>, ServerError>)
    ensures
        r is Err <==> (msg@.parameters.len() == 3 && user_index(usrs(users@), nickname@) < 0),
        r is Err ==> *final(channels) == *old(channels),
        r is Ok ==> chans(final(channels)@) == oper_ch_spec(chans(old(channels)@), usrs(users@), msg@).0,
        r is Ok ==> msgs(r->Ok_0@) == oper_ch_spec(chans(old(channels)@), usrs(users@), msg@).1,
{
    let mut rv: Vec<Message> = Vec::new();
    assert(msgs(rv@) =~= Seq::<MessageView>::empty());
    if msg.parameters.len() != 3 {
        push_reply(&mut rv, err_need_more_params(msg.command));
        return Ok(rv);
    }
    if locate_user(users, &nickname).is_none() {
        return Err(ServerError::new("Cannot obtain current user"));
    }
    let ghost us = usrs(users@);
    let mut ai: usize = 0;
    while ai < users.len() && !(users[ai].username == msg.parameters[1] && users[ai].password == msg.parameters[2])
        invariant
            ai <= users@.len(),
            msg.parameters@.len() == 3,
            us == usrs(users@),
            credentials_index(us.take(ai as int), msg@.parameters[1], msg@.parameters[2]) == -1,
        decreases users@.len() - ai,
    {
        assert(us.take(ai + 1).drop_last() =~= us.take(ai as int));
        ai = ai + 1;
    }
    if ai == users.len() {
        assert(us.take(ai as int) =~= us);
        push_reply(&mut rv, err_no_oper_host());
        return Ok(rv);
    }
    proof {
        lemma_credentials_prefix(us, msg@.parameters[1], msg@.parameters[2], ai as int);
    }
    let ghost chs = chans(channels@);
    let admin = &users[ai].nickname;
    let mut ci: usize = 0;
    while ci < channels.len() && !channels[ci].has_user(admin)
        invariant
            ci <= channels@.len(),
            chs == chans(channels@),
            member_channel_index(chs.take(ci as int), admin@) == -1,
        decreases channels@.len() - ci,
    {
        assert(chs.take(ci + 1).drop_last() =~= chs.take(ci as int));
        ci = ci + 1;
    }
    if ci == channels.len() {
        assert(chs.take(ci as int) =~= chs);
        push_reply(&mut rv, err_no_oper_host());
        return Ok(rv);
    }
    proof {
        lemma_member_prefix(chs, admin@, ci as int);
    }
    let mut ch = channels.remove(ci);
    assert(ch@ == chs[ci as int]);
    ch.add_admin(admin.clone());
    let ghost rest = chans(channels@);
    assert(rest =~= chs.remove(ci as int));
    channels.push(ch);
    assert(chans(channels@) =~= rest.push(ch@));
    push_reply(&mut rv, rpl_you_are_oper());
    Ok(rv)
}

proof fn lemma_credentials_prefix(us: Seq<UserView>, name: Seq<char>, pass: Seq<char>, i: int)
    requires
        0 <= i < us.len(),
        credentials_index(us.take(i), name, pass) == -1,
        us[i].username == name && us[i].password == pass,
    ensures
        credentials_index(us, name, pass) == i,
    decreases us.len(),
{
    assert(us.take(i + 1).drop_last() =~= us.take(i));
    if i + 1 < us.len() {
        assert(us.drop_last().take(i) =~= us.take(i));
        lemma_credentials_prefix(us.drop_last(), name, pass, i);
    } else {
        assert(us.take(i + 1) =~= us);
    }
}

proof fn lemma_member_prefix(chs: Seq<ChannelView>, nick: Seq<char>, i: int)
    requires
        0 <= i < chs.len(),
        member_channel_index(chs.take(i), nick) == -1,
        chs[i].users.contains(nick),
    ensures
        member_channel_index(chs, nick) == i,
    decreases chs.len(),
{
    assert(chs.take(i + 1).drop_last() =~= chs.take(i));
    if i + 1 < chs.len() {
        assert(chs.drop_last().take(i) =~= chs.take(i));
        lemma_member_prefix(chs.drop_last(), nick, i);
    } else {
        assert(chs.take(i + 1) =~= chs);
    }
}


/// The JOIN lines a JOIN sends on to the peers: one
/// `:<server> JOIN <channel> <nick>` for each named `&`-channel that already
/// exists, in the order named.
pub open spec fn join_forward_lines(names: Seq<Seq<char>>, chs: Seq<ChannelView>, server: Seq<char>, nick: Seq<char>) -> Seq<MessageView>
    decreases names.len(),
{
    if names.len() == 0 {
        Seq::empty()
    } else {
        let n = names.last();
        join_forward_lines(names.drop_last(), chs, server, nick)
            + (if n.len() > 0 && n[0] == '&' && channel_index(chs, n) >= 0 {
                seq![crate::message::parse_spec(":"@ + server + " JOIN "@ + n + " "@ + nick)]
            } else {
                Seq::empty()
            })
    }
}

/// Each line handed to every peer but `sender`, line after line.
pub open spec fn fan_out(lines: Seq<MessageView>, peers: Seq<Server>, sender: Seq<char>) -> Seq<crate::commands::DeliveryView>
    decreases lines.len(),
{
    if lines.len() == 0 {
        Seq::empty()
    } else {
        fan_out(lines.drop_last(), peers, sender) + crate::federation::forwards(peers, sender, lines.last())
    }
}

/// Hands one message to every peer but `sender`.
fn to_peers_but(server: &Server, sender: &String, m: &Message, out: &mut Vec<crate::commands::Delivery>)
    ensures
        crate::commands::dels(final(out)@) == crate::commands::dels(old(out)@)
            + crate::federation::forwards(server.connected_servers@, sender@, m@),
{
    let ghost start = crate::commands::dels(out@);
    let ghost ps = server.connected_servers@;
    let mut i: usize = 0;
    while i < server.connected_servers.len()
        invariant
            i <= ps.len(),
            ps == server.connected_servers@,
            crate::commands::dels(out@) == start + crate::federation::forwards(ps.take(i as int), sender@, m@),
        decreases ps.len() - i,
    {
        assert(ps.take(i + 1).drop_last() =~= ps.take(i as int));
        assert(ps.take(i + 1).last() == ps[i as int]);
        let ghost before = crate::commands::dels(out@);
        if server.connected_servers[i].name != *sender {
            out.push(crate::commands::Delivery { to_peer: true, target: server.connected_servers[i].name.clone(), message: m.duplicate() });
            assert(crate::commands::dels(out@) =~= before.push(crate::commands::DeliveryView { to_peer: true, target: ps[i as int].name@, message: m@ }));
        }
        assert(crate::commands::dels(out@) =~= start + crate::federation::forwards(ps.take(i + 1), sender@, m@));
        i = i + 1;
    }
    assert(ps.take(ps.len() as int) =~= ps);
}

/// What a JOIN sends on to the peers so that the members of `&`-channels are
/// known network-wide: for each named `&`-channel that already exists, a JOIN
/// with this server as prefix, to every peer but the one the JOIN came from.
/// Called with the channels as they were before the JOIN.
pub fn join_forwards(msg: &Message, nick: &String, channels: &Vec<Channel>, server: &Server) -> (r: Vec<crate::commands::Delivery>)
    ensures
        crate::commands::dels(r@) == (if msg@.parameters.len() > 0 {
            fan_out(join_forward_lines(split_spec(msg@.parameters[0], ','), chans(channels@), server.name@, join_nick(msg@, nick@)),
                server.connected_servers@, match msg@.prefix { Some(p) => p, None => Seq::empty() })
        } else {
            Seq::empty()
        }),
{
    let mut out: Vec<crate::commands::Delivery> = Vec::new();
    assert(crate::commands::dels(out@) =~= Seq::<crate::commands::DeliveryView>::empty());
    if msg.parameters.len() == 0 {
        return out;
    }
    let mut who = nick.clone();
    if msg.parameters.len() == 2 && starts_with_amp(&msg.parameters[0]) {
        who = msg.parameters[1].clone();
    }
    let sender = match &msg.prefix {
        Some(p) => p.clone(),
        None => String::new(),
    };
    let names = split_char(msg.parameters[0].as_str(), ',');
    let ghost chs = chans(channels@);
    let mut k: usize = 0;
    while k < names.len()
        invariant
            k <= names@.len(),
            chs == chans(channels@),
            who@ == join_nick(msg@, nick@),
            sender@ == (match msg@.prefix { Some(p) => p, None => Seq::empty() }),
            crate::commands::dels(out@) == fan_out(join_forward_lines(strs(names@).take(k as int), chs, server.name@, who@),
                server.connected_servers@, sender@),
        decreases names@.len() - k,
    {
        let name = &names[k];
        assert(strs(names@).take(k + 1).drop_last() =~= strs(names@).take(k as int));
        assert(strs(names@).take(k + 1).last() == name@);
        let ghost prev = join_forward_lines(strs(names@).take(k as int), chs, server.name@, who@);
        if starts_with_amp(name) && locate_channel(channels, name).is_some() {
            let line = crate::text::concat(":", server.name.as_str());
            let line = crate::text::concat(line.as_str(), " JOIN ");
            let line = crate::text::concat(line.as_str(), name.as_str());
            let line = crate::text::concat(line.as_str(), " ");
            let line = crate::text::concat(line.as_str(), who.as_str());
            let m = crate::message::parse_line(line.as_str());
            to_peers_but(server, &sender, &m, &mut out);
            assert(join_forward_lines(strs(names@).take(k + 1), chs, server.name@, who@) =~= prev.push(m@));
            assert(prev.push(m@).drop_last() =~= prev);
        } else {
            assert(join_forward_lines(strs(names@).take(k + 1), chs, server.name@, who@) =~= prev);
        }
        k = k + 1;
    }
    assert(strs(names@).take(names@.len() as int) =~= strs(names@));
    out
}

} // verus!
