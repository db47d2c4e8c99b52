use vstd::prelude::*;
use vstd::string::StringExecFns;
use crate::channel::{msgs, push_reply};
use crate::channel_msgs::{usrs, user_index, lemma_user_index_found};
use crate::directory::{find_user, has_nick, unique_nicks};
use crate::message::{Message, MessageView};
use crate::replies::{
    err_need_more_params, err_need_more_params_v, err_already_registred, err_already_registred_v,
    err_no_nickname_given, err_no_nickname_given_v, err_nickname_in_use, err_nickname_in_use_v,
    rpl_you_are_oper, rpl_you_are_oper_v, err_no_oper_host, err_no_oper_host_v, rpl_away, rpl_away_v,
    rpl_unaway, rpl_unaway_v, rpl_whoisuser, rpl_whoisuser_v, err_no_such_nick, err_no_such_nick_v,
    rpl_who_reply, rpl_who_reply_v,
};
use crate::server_errors::ServerError;
use crate::text::{strs, concat};
use crate::user::{User, UserView};
use crate::channel::{Channel, ChannelView};
use crate::channel_msgs::{chans, channel_index, lemma_channel_index_found};
use crate::directory::find_channel;
use crate::net::{Server, route_from};
use crate::message::{parse_line, parse_spec};
use crate::replies::{
    err_no_recpient, err_no_recpient_v, err_no_text_tosend, err_no_text_tosend_v, error_no_such_nick,
    error_no_such_nick_v, err_can_not_send_to_chan, err_can_not_send_to_chan_v,
};
use crate::text::split_spec;

verus! {

/// PASS after registration: the connection is already registered, whatever
/// the parameters.
pub fn password_msg(msg: Message) -> (r: Result<Vec<Message>, ServerError>)
    ensures
        r is Ok,
        msgs(r->Ok_0@) == seq![err_already_registred_v()],
{
    let mut rv: Vec<Message> = Vec::new();
    assert(msgs(rv@) =~= Seq::<MessageView>::empty());
    push_reply(&mut rv, err_already_registred());
    Ok(rv)
}

/// USER after registration: the connection is already registered, whatever
/// the parameters.
pub fn user_msg(msg: Message) -> (r: Result<Vec<Message>, ServerError>)
    ensures
        r is Ok,
        msgs(r->Ok_0@) == seq![err_already_registred_v()],
{
    let mut rv: Vec<Message> = Vec::new();
    assert(msgs(rv@) =~= Seq::<MessageView>::empty());
    push_reply(&mut rv, err_already_registred());
    Ok(rv)
}

/// NICK `<nick>`: changes the sender's nickname when no user has the new one.
pub fn nick_msg(msg: Message, users: &mut Vec<User>, nick: &mut String) -> (r: Result<Vec<Message>, ServerError>)
    ensures
        ({
            let ps = msg@.parameters;
            let ui = user_index(usrs(old(users)@), old(nick)@);
            if ps.len() == 0 {
                &&& r is Ok
                &&& msgs(r->Ok_0@) == seq![err_no_nickname_given_v()]
                &&& *final(users) == *old(users)
                &&& *final(nick) == *old(nick)
            } else if ui < 0 {
                &&& r is Err
                &&& *final(users) == *old(users)
                &&& *final(nick) == *old(nick)
            } else if has_nick(old(users)@, ps[0]) {
                &&& r is Ok
                &&& msgs(r->Ok_0@) == seq![err_nickname_in_use_v(ps[0])]
                &&& *final(users) == *old(users)
                &&& *final(nick) == *old(nick)
            } else {
                &&& r is Ok
                &&& msgs(r->Ok_0@).len() == 0
                &&& final(nick)@ == ps[0]
                &&& usrs(final(users)@) == usrs(old(users)@).update(ui, UserView { nickname: ps[0], ..usrs(old(users)@)[ui] })
                &&& final(users)@.len() == old(users)@.len()
                &&& forall|j: int| 0 <= j < final(users)@.len() && j != ui ==> final(users)@[j] == old(users)@[j]
                &&& final(users)@[ui].nickname@ == ps[0]
            }
        }),
        unique_nicks(old(users)@) ==> unique_nicks(final(users)@),
{
    let mut rv: Vec<Message> = Vec::new();
    assert(msgs(rv@) =~= Seq::<MessageView>::empty());
    if msg.parameters.len() == 0 {
        push_reply(&mut rv, err_no_nickname_given());
        return Ok(rv);
    }
    let ui = match find_user(users, nick) {
        Some(i) => i,
        None => {
            proof {
                lemma_user_index_found(usrs(users@), nick@);
                assert forall|j: int| 0 <= j < usrs(users@).len() implies usrs(users@)[j].nickname != nick@ by {
                    assert(users@[j].nickname@ == usrs(users@)[j].nickname);
                }
                crate::channel_msgs::lemma_user_index(usrs(users@), nick@, -1);
            }
            return Err(ServerError::new("Cannot obtain current user"));
        },
    };
    proof { crate::channel_msgs::lemma_user_index(usrs(users@), nick@, ui as int); }
    if find_user(users, &msg.parameters[0]).is_some() {
        push_reply(&mut rv, err_nickname_in_use(msg.parameters[0].clone()));
        return Ok(rv);
    }
    let ghost old_users = users@;
    let mut user = users.remove(ui);
    user.set_nickname(msg.parameters[0].clone());
    users.insert(ui, user);
    assert(usrs(users@) =~= usrs(old_users).update(ui as int, UserView { nickname: msg@.parameters[0], ..usrs(old_users)[ui as int] }));
    assert forall|j: int| 0 <= j < users@.len() && j != ui implies users@[j] == old_users[j] by {
        if j < ui {
        } else {
        }
    }
    proof {
        if unique_nicks(old_users) {
            assert forall|a: int, b: int| 0 <= a < users@.len() && 0 <= b < users@.len() && a != b
                implies users@[a].nickname@ != users@[b].nickname@ by {
                if a == ui {
                    assert(users@[b] == old_users[b]);
                } else if b == ui {
                    assert(users@[a] == old_users[a]);
                } else {
                    assert(users@[a] == old_users[a]);
                    assert(users@[b] == old_users[b]);
                }
            }
        }
    }
    *nick = msg.parameters[0].clone();
    Ok(rv)
}


/// Finds a user, stating the position through [`user_index`].
fn locate(users: &Vec<User>, nick: &String) -> (r: Option<usize>)
    ensures
        match r {
            Some(i) => i < users@.len() && user_index(usrs(users@), nick@) == i && users@[i as int].nickname@ == nick@,
            None => user_index(usrs(users@), nick@) == -1,
        },
{
    let r = find_user(users, nick);
    proof {
        match r {
            Some(i) => crate::channel_msgs::lemma_user_index(usrs(users@), nick@, i as int),
            None => {
                assert forall|j: int| 0 <= j < usrs(users@).len() implies usrs(users@)[j].nickname != nick@ by {
                    assert(users@[j].nickname@ == usrs(users@)[j].nickname);
                }
                crate::channel_msgs::lemma_user_index(usrs(users@), nick@, -1);
            },
        }
    }
    r
}

/// QUIT: removes the sender from the directory.
pub fn quit_msg(msg: Message, nickname: &String, users: &mut Vec<User>) -> (r: Result<Vec<Message>, ServerError>)
    ensures
        r is Err <==> user_index(usrs(old(users)@), nickname@) < 0,
        r is Err ==> *final(users) == *old(users),
        r is Ok ==> r->Ok_0@.len() == 0
            && final(users)@ == old(users)@.remove(user_index(usrs(old(users)@), nickname@)),
        unique_nicks(old(users)@) ==> unique_nicks(final(users)@),
{
    match locate(users, nickname) {
        Some(i) => {
            let ghost before = users@;
            users.remove(i);
            proof {
                if unique_nicks(before) {
                    assert forall|a: int, b: int| 0 <= a < users@.len() && 0 <= b < users@.len() && a != b
                        implies users@[a].nickname@ != users@[b].nickname@ by {
                        let a2 = if a < i { a } else { a + 1 };
                        let b2 = if b < i { b } else { b + 1 };
                        assert(users@[a] == before[a2]);
                        assert(users@[b] == before[b2]);
                    }
                }
            }
            Ok(Vec::new())
        },
        None => Err(ServerError::new("Cannot obtain users list")),
    }
}

/// Whether the credentials are the server operator's.
pub open spec fn oper_credentials(user: Seq<char>, pass: Seq<char>) -> bool {
    user == "admin"@ && pass == "1234"@
}

/// OPER `<user> <password>`: makes the sender a server operator when the
/// credentials are the operator's.
pub fn oper_msg(msg: Message, users: &mut Vec<User>, nickname: &String) -> (r: Result<Vec<Message>, ServerError>)
    ensures
        ({
            let ps = msg@.parameters;
            let ui = user_index(usrs(old(users)@), nickname@);
            if ps.len() < 2 {
                r is Ok && msgs(r->Ok_0@) == seq![err_need_more_params_v(msg@.command)] && *final(users) == *old(users)
            } else if !oper_credentials(ps[0], ps[1]) {
                r is Ok && msgs(r->Ok_0@) == seq![err_no_oper_host_v()] && *final(users) == *old(users)
            } else if ui < 0 {
                r is Err && *final(users) == *old(users)
            } else {
                &&& r is Ok
                &&& msgs(r->Ok_0@) == seq![rpl_you_are_oper_v()]
                &&& final(users)@ == old(users)@.update(ui, User { is_admin: true, ..old(users)@[ui] })
            }
        }),
        unique_nicks(old(users)@) ==> unique_nicks(final(users)@),
{
    let mut rv: Vec<Message> = Vec::new();
    assert(msgs(rv@) =~= Seq::<MessageView>::empty());
    if msg.parameters.len() < 2 {
        push_reply(&mut rv, err_need_more_params(msg.command));
        return Ok(rv);
    }
    let admin_name = String::from_str("admin");
    let admin_pass = String::from_str("1234");
    if msg.parameters[0] == admin_name && msg.parameters[1] == admin_pass {
        match locate(users, nickname) {
            Some(i) => {
                let ghost before = users@;
                let mut user = users.remove(i);
                user.become_admin();
                users.insert(i, user);
                assert(users@ =~= before.update(i as int, User { is_admin: true, ..before[i as int] }));
                proof { crate::directory::lemma_same_nicks(before, users@); }
                push_reply(&mut rv, rpl_you_are_oper());
                Ok(rv)
            },
            None => Err(ServerError::new("Cannot get user")),
        }
    } else {
        push_reply(&mut rv, err_no_oper_host());
        Ok(rv)
    }
}

/// AWAY `[<message>]`: sets the away message of the user named by the prefix,
/// or clears it.
pub fn away_msg(msg: Message, users: &mut Vec<User>) -> (r: Result<Vec<Message>, ServerError>)
    ensures
        msg@.prefix is None ==> r is Err && *final(users) == *old(users),
        msg@.prefix is Some ==> ({
            let ui = user_index(usrs(old(users)@), msg@.prefix->0);
            let away = if msg@.parameters.len() > 0 { Some(msg.parameters@[0]) } else { None };
            if ui < 0 {
                r is Err && *final(users) == *old(users)
            } else {
                &&& r is Ok
                &&& msgs(r->Ok_0@) == (if msg@.parameters.len() > 0 { seq![rpl_away_v()] } else { seq![rpl_unaway_v()] })
                &&& final(users)@ == old(users)@.update(ui, User { away_message: away, ..old(users)@[ui] })
            }
        }),
        unique_nicks(old(users)@) ==> unique_nicks(final(users)@),
{
    let nickname = match &msg.prefix {
        Some(p) => p,
        None => return Err(ServerError::new("Unknown user")),
    };
    let mut rv: Vec<Message> = Vec::new();
    assert(msgs(rv@) =~= Seq::<MessageView>::empty());
    let away_message = if msg.parameters.len() > 0 {
        push_reply(&mut rv, rpl_away());
        Some(msg.parameters[0].clone())
    } else {
        push_reply(&mut rv, rpl_unaway());
        None
    };
    match locate(users, nickname) {
        Some(i) => {
            let ghost before = users@;
            let mut user = users.remove(i);
            user.set_away_message(away_message);
            users.insert(i, user);
            assert(users@ =~= before.update(i as int, User { away_message: away_message, ..before[i as int] }));
            proof { crate::directory::lemma_same_nicks(before, users@); }
            Ok(rv)
        },
        None => Err(ServerError::new("Unknown user")),
    }
}

/// The text of a WHOIS reply: `<nick> <user> <host> * :<real>`.
pub open spec fn user_info(u: UserView) -> Seq<char> {
    u.nickname + " "@ + u.username + " "@ + u.hostname + " * :"@ + u.realname
}

/// The WHOIS replies for the users whose nickname is among `names`, in directory
/// order.
pub open spec fn whois_replies(us: Seq<UserView>, names: Seq<Seq<char>>) -> Seq<MessageView>
    decreases us.len(),
{
    if us.len() == 0 {
        Seq::empty()
    } else {
        whois_replies(us.drop_last(), names)
            + (if names.contains(us.last().nickname) { seq![rpl_whoisuser_v(user_info(us.last()))] } else { Seq::empty() })
    }
}

/// WHOIS `<nick>...`: the information of each user named.
pub fn whois_msg(msg: Message, users: &Vec<User>) -> (r: Result<Vec<Message>, ServerError>)
    ensures
        r is Ok,
        ({
            let ps = msg@.parameters;
            let found = whois_replies(usrs(users@), ps);
            msgs(r->Ok_0@) == (if ps.len() == 0 {
                seq![err_need_more_params_v(msg@.command)]
            } else if found.len() == 0 {
                seq![err_no_such_nick_v()]
            } else {
                found
            })
        }),
{
    let mut rv: Vec<Message> = Vec::new();
    assert(msgs(rv@) =~= Seq::<MessageView>::empty());
    if msg.parameters.len() == 0 {
        push_reply(&mut rv, err_need_more_params(msg.command));
        return Ok(rv);
    }
    let ghost us = usrs(users@);
    let mut i: usize = 0;
    while i < users.len()
        invariant
            i <= users@.len(),
            us == usrs(users@),
            msgs(rv@) == whois_replies(us.take(i as int), msg@.parameters),
        decreases users@.len() - i,
    {
        let u = &users[i];
        assert(us.take(i + 1).drop_last() =~= us.take(i as int));
        assert(us.take(i + 1).last() == u@);
        if crate::text::contains_string(&msg.parameters, &u.nickname) {
            let info = concat(u.nickname.as_str(), " ");
            let info = concat(info.as_str(), u.username.as_str());
            let info = concat(info.as_str(), " ");
            let info = concat(info.as_str(), u.hostname.as_str());
            let info = concat(info.as_str(), " * :");
            let info = concat(info.as_str(), u.realname.as_str());
            push_reply(&mut rv, rpl_whoisuser(info));
        } else {
            assert(msgs(rv@) =~= msgs(rv@) + Seq::<MessageView>::empty());
        }
        i = i + 1;
    }
    assert(us.take(users@.len() as int) =~= us);
    if rv.len() == 0 {
        push_reply(&mut rv, err_no_such_nick());
    }
    Ok(rv)
}

/// Whether a WHO query matches a user: its real name, server, host name,
/// nickname or user name equals the query.
pub open spec fn who_matches(u: UserView, q: Seq<char>) -> bool {
    u.realname == q || u.server == q || u.hostname == q || u.nickname == q || u.username == q
}

/// The nicknames of the users selected by `sel`, each followed by a space.
pub open spec fn who_list(us: Seq<UserView>, q: Option<Seq<char>>, admins_only: bool) -> Seq<char>
    decreases us.len(),
{
    if us.len() == 0 {
        Seq::empty()
    } else {
        let u = us.last();
        let chosen = match q { Some(q) => who_matches(u, q), None => true } && (!admins_only || u.is_admin);
        who_list(us.drop_last(), q, admins_only) + (if chosen { u.nickname + " "@ } else { Seq::empty() })
    }
}

/// The replies to WHO.
pub open spec fn who_spec(us: Seq<UserView>, m: MessageView) -> Seq<MessageView> {
    let ps = m.parameters;
    if ps.len() == 0 {
        seq![rpl_who_reply_v(" "@ + who_list(us, None, false))]
    } else if ps.len() == 2 && ps[1] != "o"@ {
        Seq::empty()
    } else {
        let list = who_list(us, Some(ps[0]), ps.len() == 2);
        if list.len() == 0 { Seq::empty() } else { seq![rpl_who_reply_v(" "@ + list)] }
    }
}

/// WHO `[<mask> [o]]`: the nicknames of all users, or of those the mask matches
/// (only operators with `o`).
pub fn who_msg(msg: Message, users: &Vec<User>) -> (r: Result<Vec<Message>, ServerError>)
    ensures
        r is Ok,
        msgs(r->Ok_0@) == who_spec(usrs(users@), msg@),
{
    let mut rv: Vec<Message> = Vec::new();
    assert(msgs(rv@) =~= Seq::<MessageView>::empty());
    let ps = &msg.parameters;
    let o = String::from_str("o");
    proof { reveal_strlit("o"); }
    if ps.len() == 2 && ps[1] != o {
        assert(ps@[1]@ != "o"@);
        return Ok(rv);
    }
    let filtered = ps.len() > 0;
    let admins_only = ps.len() == 2;
    let ghost q = if filtered { Some(msg@.parameters[0]) } else { None::<Seq<char>> };
    let ghost us = usrs(users@);
    let mut list = String::new();
    let mut any = false;
    let mut i: usize = 0;
    while i < users.len()
        invariant
            i <= users@.len(),
            us == usrs(users@),
            filtered == (msg@.parameters.len() > 0),
            filtered == (msg.parameters@.len() > 0),
            filtered ==> q == Some(msg@.parameters[0]),
            !filtered ==> q == None::<Seq<char>>,
            list@ == who_list(us.take(i as int), q, admins_only),
            any == (list@.len() > 0),
        decreases users@.len() - i,
    {
        let u = &users[i];
        proof { reveal_strlit(" "); }
        assert(us.take(i + 1).drop_last() =~= us.take(i as int));
        assert(us.take(i + 1).last() == u@);
        let chosen = if filtered {
            let x = &msg.parameters[0];
            assert(crate::message::strings_view(msg.parameters@)[0] == msg.parameters@[0]@);
            assert(x@ == msg@.parameters[0]);
            u.realname == *x || u.server == *x || u.hostname == *x || u.nickname == *x || u.username == *x
        } else {
            true
        } && (!admins_only || u.is_admin);
        assert(chosen == (match q { Some(q) => who_matches(u@, q), None => true } && (!admins_only || u@.is_admin)));
        if chosen {
            list.append(u.nickname.as_str());
            list.append(" ");
            any = true;
        }
        assert(list@ =~= who_list(us.take(i + 1), q, admins_only));
        i = i + 1;
    }
    assert(us.take(users@.len() as int) =~= us);
    if !filtered || any {
        let text = concat(" ", list.as_str());
        push_reply(&mut rv, rpl_who_reply(text));
    }
    Ok(rv)
}


/// A message to hand on: to a local user by nickname, or to a peer server by
/// name (the raw line is written there).
#[derive(Debug)]
pub struct Delivery {
    pub to_peer: bool,
    pub target: String,
    pub message: Message,
}

/// The abstract content of a [`Delivery`].
pub struct DeliveryView {
    pub to_peer: bool,
    pub target: Seq<char>,
    pub message: MessageView,
}

impl View for Delivery {
    type V = DeliveryView;

    open spec fn view(&self) -> DeliveryView {
        DeliveryView { to_peer: self.to_peer, target: self.target@, message: self.message@ }
    }
}

/// The contents of a sequence of deliveries.
pub open spec fn dels(v: Seq<Delivery>) -> Seq<DeliveryView> {
    v.map_values(|d: Delivery| d@)
}

/// The replies and deliveries of a PRIVMSG or NOTICE.
pub struct Outcome {
    pub replies: Vec<Message>,
    pub deliveries: Vec<Delivery>,
}

/// The automatic answer of a user who is away.
pub open spec fn autoreply_v(from: Seq<char>, to: Seq<char>, away: Seq<char>) -> MessageView {
    parse_spec(":"@ + from + " PRIVMSG "@ + to + " :[Mensaje automático] "@ + away)
}

/// What handing a message to one user adds: a local user gets it (and, when
/// `auto` and the user is away, its automatic answer goes back to the sender); a
/// remote one gets it through the first peer leading to its server.
pub open spec fn deliver_spec(u: UserView, m: MessageView, sender: Seq<char>, node: Server, auto: bool) -> (Seq<DeliveryView>, Seq<MessageView>) {
    if u.local {
        (seq![DeliveryView { to_peer: false, target: u.nickname, message: m }],
         match u.away_message {
             Some(a) => if auto { seq![autoreply_v(u.nickname, sender, a)] } else { Seq::empty() },
             None => Seq::empty(),
         })
    } else {
        let p = route_from(node, 0, u.server);
        if p >= 0 {
            (seq![DeliveryView { to_peer: true, target: node.connected_servers@[p].name@, message: m }], Seq::empty())
        } else {
            (Seq::empty(), Seq::empty())
        }
    }
}

/// Whether the sender may speak on the channel: a member of a channel closed to
/// outside messages, an operator or voiced user of a moderated one, or anyone on
/// an unrestricted one.
pub open spec fn may_speak(c: ChannelView, nick: Seq<char>) -> bool {
    (c.mode.n && c.users.contains(nick))
        || (c.mode.m && (c.admins.contains(nick) || c.speakers.contains(nick)))
        || (!c.mode.n && !c.mode.m)
}

/// Routing state: deliveries and replies so far.
pub type RouteState = (Seq<DeliveryView>, Seq<MessageView>);

/// Handing a message to each named member of a channel but its author.
pub open spec fn to_members(st: RouteState, members: Seq<Seq<char>>, us: Seq<UserView>, m: MessageView, receiver: Seq<char>, author: Seq<char>, node: Server, auto: bool) -> RouteState
    decreases members.len(),
{
    if members.len() == 0 {
        st
    } else {
        let prev = to_members(st, members.drop_last(), us, m, receiver, author, node, auto);
        let ui = user_index(us, members.last());
        if ui < 0 {
            (prev.0, prev.1.push(error_no_such_nick_v(receiver)))
        } else if us[ui].nickname == author {
            prev
        } else {
            let d = deliver_spec(us[ui], m, author, node, auto);
            (prev.0 + d.0, prev.1 + d.1)
        }
    }
}

/// Whether a target names a channel.
pub open spec fn is_channel_target(r: Seq<char>) -> bool {
    r.len() > 0 && (r[0] == '#' || r[0] == '&')
}

/// Handing a message to one target.
pub open spec fn to_target(st: RouteState, r: Seq<char>, chs: Seq<ChannelView>, us: Seq<UserView>, m: MessageView, nick: Seq<char>, author: Seq<char>, node: Server, auto: bool) -> RouteState {
    if is_channel_target(r) {
        let ci = channel_index(chs, r);
        if ci < 0 {
            (st.0, st.1.push(error_no_such_nick_v(r)))
        } else if may_speak(chs[ci], nick) {
            to_members(st, chs[ci].users, us, m, r, author, node, auto)
        } else {
            (st.0, st.1.push(err_can_not_send_to_chan_v(chs[ci].name)))
        }
    } else {
        let ui = user_index(us, r);
        if ui < 0 {
            (st.0, st.1.push(error_no_such_nick_v(r)))
        } else {
            let d = deliver_spec(us[ui], m, author, node, auto);
            (st.0 + d.0, st.1 + d.1)
        }
    }
}

/// Handing a message to each target in turn.
pub open spec fn to_targets(st: RouteState, rs: Seq<Seq<char>>, chs: Seq<ChannelView>, us: Seq<UserView>, m: MessageView, nick: Seq<char>, author: Seq<char>, node: Server, auto: bool) -> RouteState
    decreases rs.len(),
{
    if rs.len() == 0 {
        st
    } else {
        to_target(to_targets(st, rs.drop_last(), chs, us, m, nick, author, node, auto), rs.last(), chs, us, m, nick, author, node, auto)
    }
}

/// The author of a message: its prefix, or the session's nickname.
pub open spec fn author_of(m: MessageView, nick: Seq<char>) -> Seq<char> {
    match m.prefix {
        Some(p) => p,
        None => nick,
    }
}

/// The outcome of PRIVMSG.
pub open spec fn priv_spec(chs: Seq<ChannelView>, us: Seq<UserView>, m: MessageView, nick: Seq<char>, node: Server) -> RouteState {
    let ps = m.parameters;
    if ps.len() == 0 || ps[0].len() == 0 {
        (Seq::empty(), seq![err_no_recpient_v(m.command)])
    } else if ps.len() < 2 || ps[1].len() == 0 {
        (Seq::empty(), seq![err_no_text_tosend_v()])
    } else {
        to_targets((Seq::empty(), Seq::empty()), split_spec(ps[0], ','), chs, us, m, nick, author_of(m, nick), node, true)
    }
}

fn append_deliveries(out: &mut Vec<Delivery>, more: Vec<Delivery>)
    ensures
        dels(final(out)@) == dels(old(out)@) + dels(more@),
{
    let mut more = more;
    let ghost a = out@;
    let ghost b = more@;
    out.append(&mut more);
    assert(out@ =~= a + b);
    assert(dels(out@) =~= dels(a) + dels(b));
}

/// Hands a message to one user.
fn deliver(u: &User, msg: &Message, sender: &String, peers: &Server, auto: bool, out: &mut Outcome)
    ensures
        (dels(final(out).deliveries@), msgs(final(out).replies@)) == ({
            let d = deliver_spec(u@, msg@, sender@, *peers, auto);
            (dels(old(out).deliveries@) + d.0, msgs(old(out).replies@) + d.1)
        }),
{
    let ghost d0 = dels(out.deliveries@);
    let ghost r0 = msgs(out.replies@);
    if u.local {
        let ghost before = out.deliveries@;
        out.deliveries.push(Delivery { to_peer: false, target: u.nickname.clone(), message: msg.duplicate() });
        assert(dels(out.deliveries@) =~= d0 + seq![DeliveryView { to_peer: false, target: u@.nickname, message: msg@ }]);
        match &u.away_message {
            Some(a) => {
                if auto {
                    let line = concat(":", u.nickname.as_str());
                    let line = concat(line.as_str(), " PRIVMSG ");
                    let line = concat(line.as_str(), sender.as_str());
                    let line = concat(line.as_str(), " :[Mensaje automático] ");
                    let line = concat(line.as_str(), a.as_str());
                    crate::channel::push_reply(&mut out.replies, parse_line(line.as_str()));
                } else {
                    assert(msgs(out.replies@) =~= r0 + Seq::<MessageView>::empty());
                }
            },
            None => {
                assert(msgs(out.replies@) =~= r0 + Seq::<MessageView>::empty());
            },
        }
    } else {
        assert(msgs(out.replies@) =~= r0 + Seq::<MessageView>::empty());
        match peers.route_to(&u.server) {
            Some(p) => {
                out.deliveries.push(Delivery { to_peer: true, target: peers.connected_servers[p].name.clone(), message: msg.duplicate() });
                assert(dels(out.deliveries@) =~= d0 + seq![DeliveryView { to_peer: true, target: peers.connected_servers@[p as int].name@, message: msg@ }]);
            },
            None => {
                assert(dels(out.deliveries@) =~= d0 + Seq::<DeliveryView>::empty());
            },
        }
    }
}


/// Hands a message to each comma-separated target of its first parameter.
fn route_message(msg: &Message, users: &Vec<User>, channels: &Vec<Channel>, peers: &Server, nick: &String, author: &String, auto: bool) -> (r: Outcome)
    requires
        msg@.parameters.len() > 0,
    ensures
        (dels(r.deliveries@), msgs(r.replies@)) == to_targets((Seq::empty(), Seq::empty()),
            split_spec(msg@.parameters[0], ','), chans(channels@), usrs(users@), msg@, nick@, author@, *peers, auto),
{
    let mut out = Outcome { replies: Vec::new(), deliveries: Vec::new() };
    assert(msgs(out.replies@) =~= Seq::<MessageView>::empty());
    assert(dels(out.deliveries@) =~= Seq::<DeliveryView>::empty());
    let targets = crate::text::split_char(msg.parameters[0].as_str(), ',');
    let ghost chs = chans(channels@);
    let ghost us = usrs(users@);
    let mut k: usize = 0;
    while k < targets.len()
        invariant
            k <= targets@.len(),
            chs == chans(channels@),
            us == usrs(users@),
            msg@.parameters.len() > 0,
            strs(targets@) == split_spec(msg@.parameters[0], ','),
            (dels(out.deliveries@), msgs(out.replies@)) == to_targets((Seq::empty(), Seq::empty()),
                strs(targets@).take(k as int), chs, us, msg@, nick@, author@, *peers, auto),
        decreases targets@.len() - k,
    {
        let target = &targets[k];
        assert(strs(targets@).take(k + 1).drop_last() =~= strs(targets@).take(k as int));
        assert(strs(targets@).take(k + 1).last() == target@);
        let ghost st = (dels(out.deliveries@), msgs(out.replies@));
        let chars = crate::text::chars_of(target.as_str());
        if chars.len() > 0 && (chars[0] == '#' || chars[0] == '&') {
            match find_channel(channels, target) {
                None => {
                    proof {
                        assert forall|j: int| 0 <= j < chs.len() implies chs[j].name != target@ by {
                            assert(channels@[j].name@ == chs[j].name);
                        }
                        crate::channel_msgs::lemma_channel_index(chs, target@, -1);
                    }
                    crate::channel::push_reply(&mut out.replies, error_no_such_nick(target.clone()));
                },
                Some(ci) => {
                    proof { crate::channel_msgs::lemma_channel_index(chs, target@, ci as int); }
                    let c = &channels[ci];
                    let allowed = (c.is_no_msg_outside() && c.has_user(nick))
                        || (c.is_moderated() && c.can_send_msg(nick))
                        || c.is_not_msg_restricted();
                    if allowed {
                        let mut j: usize = 0;
                        while j < c.users.len()
                            invariant
                                j <= c.users@.len(),
                                chs == chans(channels@),
                                us == usrs(users@),
                                c@ == chs[ci as int],
                                (dels(out.deliveries@), msgs(out.replies@)) == to_members(st,
                                    c@.users.take(j as int), us, msg@, target@, author@, *peers, auto),
                            decreases c.users@.len() - j,
                        {
                            let member = &c.users[j];
                            assert(c@.users.take(j + 1).drop_last() =~= c@.users.take(j as int));
                            assert(c@.users.take(j + 1).last() == member@);
                            match locate(users, member) {
                                None => {
                                    crate::channel::push_reply(&mut out.replies, error_no_such_nick(target.clone()));
                                },
                                Some(ui) => {
                                    if users[ui].nickname != *author {
                                        deliver(&users[ui], msg, author, peers, auto, &mut out);
                                    }
                                },
                            }
                            j = j + 1;
                        }
                        assert(c@.users.take(c@.users.len() as int) =~= c@.users);
                    } else {
                        crate::channel::push_reply(&mut out.replies, err_can_not_send_to_chan(c.name.clone()));
                    }
                },
            }
        } else {
            match locate(users, target) {
                None => {
                    crate::channel::push_reply(&mut out.replies, error_no_such_nick(target.clone()));
                },
                Some(ui) => {
                    deliver(&users[ui], msg, author, peers, auto, &mut out);
                },
            }
        }
        k = k + 1;
    }
    assert(strs(targets@).take(targets@.len() as int) =~= strs(targets@));
    out
}

/// The author of a message: its prefix, or the session's nickname.
fn author_name(msg: &Message, nick: &String) -> (r: String)
    ensures
        r@ == author_of(msg@, nick@),
{
    match &msg.prefix {
        Some(p) => p.clone(),
        None => nick.clone(),
    }
}

/// PRIVMSG `<targets> <text>`: hands the message to each target user, or to
/// each member of each target channel the sender may speak on.
pub fn priv_msg(msg: Message, users: &Vec<User>, channels: &Vec<Channel>, peers: &Server, nick: String) -> (r: Result<Outcome, ServerError>)
    ensures
        r is Ok,
        (dels(r->Ok_0.deliveries@), msgs(r->Ok_0.replies@)) == priv_spec(chans(channels@), usrs(users@), msg@, nick@, *peers),
{
    let mut out = Outcome { replies: Vec::new(), deliveries: Vec::new() };
    assert(dels(out.deliveries@) =~= Seq::<DeliveryView>::empty());
    assert(msgs(out.replies@) =~= Seq::<MessageView>::empty());
    if msg.parameters.len() == 0 || msg.parameters[0].as_str().is_empty() {
        crate::channel::push_reply(&mut out.replies, err_no_recpient(msg.command));
        return Ok(out);
    }
    if msg.parameters.len() < 2 || msg.parameters[1].as_str().is_empty() {
        crate::channel::push_reply(&mut out.replies, err_no_text_tosend());
        return Ok(out);
    }
    let author = author_name(&msg, &nick);
    Ok(route_message(&msg, users, channels, peers, &nick, &author, true))
}

/// NOTICE `<targets> <text>`: hands the message on as PRIVMSG does, with no
/// automatic answer and no error reply.
pub fn notice_msg(msg: Message, users: &Vec<User>, nick: String, channels: &Vec<Channel>, peers: &Server) -> (r: Result<Outcome, ServerError>)
    ensures
        r is Ok,
        r->Ok_0.replies@.len() == 0,
        ({
            let ps = msg@.parameters;
            if ps.len() < 2 || ps[0].len() == 0 || ps[1].len() == 0 {
                dels(r->Ok_0.deliveries@).len() == 0
            } else {
                dels(r->Ok_0.deliveries@) == to_targets((Seq::empty(), Seq::empty()), split_spec(ps[0], ','),
                    chans(channels@), usrs(users@), msg@, nick@, author_of(msg@, nick@), *peers, false).0
            }
        }),
{
    if msg.parameters.len() < 2 || msg.parameters[0].as_str().is_empty() || msg.parameters[1].as_str().is_empty() {
        let out = Outcome { replies: Vec::new(), deliveries: Vec::new() };
        assert(dels(out.deliveries@) =~= Seq::<DeliveryView>::empty());
        return Ok(out);
    }
    let author = author_name(&msg, &nick);
    let routed = route_message(&msg, users, channels, peers, &nick, &author, false);
    Ok(Outcome { replies: Vec::new(), deliveries: routed.deliveries })
}


/// SERVER_CONNECT `<host> <port>`: only server operators may link servers.
/// Returns no reply when the connection may be attempted.
pub fn attempt_sv_connection(msg: Message, users: &Vec<User>, user_nickname: String) -> (r: Result<Vec<Message>, ServerError>)
    ensures
        ({
            let ui = user_index(usrs(users@), user_nickname@);
            if msg@.parameters.len() < 2 {
                r is Ok && msgs(r->Ok_0@) == seq![err_need_more_params_v(msg@.command)]
            } else if ui < 0 {
                r is Err
            } else if !users@[ui].is_admin {
                r is Ok && msgs(r->Ok_0@) == seq![crate::replies::err_no_privileges_v()]
            } else {
                r is Ok && r->Ok_0@.len() == 0
            }
        }),
{
    let mut rv: Vec<Message> = Vec::new();
    assert(msgs(rv@) =~= Seq::<MessageView>::empty());
    if msg.parameters.len() < 2 {
        push_reply(&mut rv, err_need_more_params(msg.command));
        return Ok(rv);
    }
    match locate(users, &user_nickname) {
        None => Err(ServerError::new("Cannot obtain current user")),
        Some(i) => {
            if !users[i].is_admin {
                push_reply(&mut rv, crate::replies::err_no_privileges());
            }
            Ok(rv)
        },
    }
}

/// The commands a session understands.
#[derive(Debug, Clone, Copy, PartialEq, Eq, Structural)]
pub enum CommandKind {
    Pass,
    User,
    Nick,
    Privmsg,
    Quit,
    Notice,
    Join,
    Part,
    Oper,
    Kick,
    OperCh,
    Invite,
    Names,
    List,
    Whois,
    Who,
    Topic,
    Away,
    Mode,
    Server,
    Squit,
    ServerConnect,
    Unknown,
}

/// The command named by a protocol verb (verbs are case-sensitive).
pub open spec fn kind_of(c: Seq<char>) -> CommandKind {
    if c == "PASS"@ { CommandKind::Pass }
    else if c == "USER"@ { CommandKind::User }
    else if c == "NICK"@ { CommandKind::Nick }
    else if c == "PRIVMSG"@ { CommandKind::Privmsg }
    else if c == "QUIT"@ { CommandKind::Quit }
    else if c == "NOTICE"@ { CommandKind::Notice }
    else if c == "JOIN"@ { CommandKind::Join }
    else if c == "PART"@ { CommandKind::Part }
    else if c == "OPER"@ { CommandKind::Oper }
    else if c == "KICK"@ { CommandKind::Kick }
    else if c == "OPERCH"@ { CommandKind::OperCh }
    else if c == "INVITE"@ { CommandKind::Invite }
    else if c == "NAMES"@ { CommandKind::Names }
    else if c == "LIST"@ { CommandKind::List }
    else if c == "WHOIS"@ { CommandKind::Whois }
    else if c == "WHO"@ { CommandKind::Who }
    else if c == "TOPIC"@ { CommandKind::Topic }
    else if c == "AWAY"@ { CommandKind::Away }
    else if c == "MODE"@ { CommandKind::Mode }
    else if c == "SERVER"@ { CommandKind::Server }
    else if c == "SQUIT"@ { CommandKind::Squit }
    else if c == "SERVER_CONNECT"@ { CommandKind::ServerConnect }
    else { CommandKind::Unknown }
}

/// Selects the handler for a command verb.
pub fn command_kind(command: &String) -> (r: CommandKind)
    ensures
        r == kind_of(command@),
{
    if *command == String::from_str("PASS") { CommandKind::Pass }
    else if *command == String::from_str("USER") { CommandKind::User }
    else if *command == String::from_str("NICK") { CommandKind::Nick }
    else if *command == String::from_str("PRIVMSG") { CommandKind::Privmsg }
    else if *command == String::from_str("QUIT") { CommandKind::Quit }
    else if *command == String::from_str("NOTICE") { CommandKind::Notice }
    else if *command == String::from_str("JOIN") { CommandKind::Join }
    else if *command == String::from_str("PART") { CommandKind::Part }
    else if *command == String::from_str("OPER") { CommandKind::Oper }
    else if *command == String::from_str("KICK") { CommandKind::Kick }
    else if *command == String::from_str("OPERCH") { CommandKind::OperCh }
    else if *command == String::from_str("INVITE") { CommandKind::Invite }
    else if *command == String::from_str("NAMES") { CommandKind::Names }
    else if *command == String::from_str("LIST") { CommandKind::List }
    else if *command == String::from_str("WHOIS") { CommandKind::Whois }
    else if *command == String::from_str("WHO") { CommandKind::Who }
    else if *command == String::from_str("TOPIC") { CommandKind::Topic }
    else if *command == String::from_str("AWAY") { CommandKind::Away }
    else if *command == String::from_str("MODE") { CommandKind::Mode }
    else if *command == String::from_str("SERVER") { CommandKind::Server }
    else if *command == String::from_str("SQUIT") { CommandKind::Squit }
    else if *command == String::from_str("SERVER_CONNECT") { CommandKind::ServerConnect }
    else { CommandKind::Unknown }
}

} // verus!
