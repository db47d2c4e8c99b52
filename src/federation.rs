use vstd::prelude::*;
use vstd::string::StringExecFns;
use crate::channel::{msgs, push_reply};
use crate::channel_msgs::{usrs, user_index};
use crate::commands::{Delivery, DeliveryView, dels};
use crate::message::{Message, MessageView};
use crate::net::{Server, in_tree, reachable, cut_off, hung_under};
use crate::replies::{err_need_more_params, err_need_more_params_v, err_no_privileges, err_no_privileges_v};
use crate::server_errors::ServerError;
use crate::user::{User, UserView};
use crate::directory::unique_nicks;
use crate::channel::{Channel, ChannelView, read_list};
use crate::channel_modes::ChannelModes;
use crate::channel_msgs::chans;
use crate::commands::Outcome;
use crate::message::{parse_line, parse_spec};
use crate::net::route_from;
use crate::text::{strs, usize_of, decimal, concat, parse_usize, usize_to_string};

verus! {

/// The users whose home server does not lie in `gone`, in order.
pub open spec fn surviving(us: Seq<UserView>, gone: Server) -> Seq<UserView>
    decreases us.len(),
{
    if us.len() == 0 {
        Seq::empty()
    } else {
        surviving(us.drop_last(), gone) + (if in_tree(gone, us.last().server) { Seq::empty() } else { seq![us.last()] })
    }
}

/// Drops every user whose home server is the disconnected server or lies
/// beneath it.
pub fn remove_disconnected_server_users(users: &mut Vec<User>, gone: &Server)
    ensures
        usrs(final(users)@) == surviving(usrs(old(users)@), *gone),
        forall|i: int| 0 <= i < final(users)@.len() ==> !in_tree(*gone, #[trigger] final(users)@[i].server@),
        forall|i: int| 0 <= i < final(users)@.len() ==> old(users)@.contains(#[trigger] final(users)@[i]),
        unique_nicks(old(users)@) ==> unique_nicks(final(users)@),
{
    let ghost us0 = usrs(users@);
    let ghost old_users = users@;
    let mut kept: Vec<User> = Vec::new();
    let ghost idx: Seq<int> = Seq::empty();
    let ghost n = users@.len() as int;
    let ghost i: int = 0;
    while users.len() > 0
        invariant
            0 <= i <= n,
            n == old_users.len(),
            users@ == old_users.subrange(i, n),
            us0 == usrs(old_users),
            usrs(kept@) == surviving(us0.take(i), *gone),
            idx.len() == kept@.len(),
            forall|a: int| 0 <= a < kept@.len() ==> 0 <= #[trigger] idx[a] < i && kept@[a] == old_users[idx[a]],
            forall|a: int, b: int| 0 <= a < b < kept@.len() ==> #[trigger] idx[a] < #[trigger] idx[b],
            forall|a: int| 0 <= a < kept@.len() ==> !in_tree(*gone, #[trigger] kept@[a].server@),
        decreases users@.len(),
    {
        let u = users.remove(0);
        assert(u == old_users[i]);
        assert(us0.take(i + 1).drop_last() =~= us0.take(i));
        assert(us0.take(i + 1).last() == u@);
        assert(in_tree(*gone, u.server@) == (gone.name@ == u.server@ || reachable(*gone, u.server@)));
        let ghost before = kept@;
        if !(gone.name == u.server || gone.is_connected_to(&u.server)) {
            kept.push(u);
            proof { idx = idx.push(i); }
            assert(usrs(kept@) =~= usrs(before).push(old_users[i]@));
        } else {
            assert(usrs(kept@) =~= usrs(before) + Seq::<UserView>::empty());
        }
        proof { i = i + 1; }
        assert(users@ =~= old_users.subrange(i, n));
    }
    assert(us0.take(n) =~= us0);
    proof {
        if unique_nicks(old_users) {
            assert forall|a: int, b: int| 0 <= a < kept@.len() && 0 <= b < kept@.len() && a != b
                implies kept@[a].nickname@ != kept@[b].nickname@ by {
                if a < b {
                    assert(idx[a] < idx[b]);
                } else {
                    assert(idx[b] < idx[a]);
                }
            }
        }
        assert forall|a: int| 0 <= a < kept@.len() implies old_users.contains(#[trigger] kept@[a]) by {
            assert(old_users[idx[a]] == kept@[a]);
        }
    }
    *users = kept;
}


/// A message with its prefix replaced.
pub open spec fn with_prefix(m: MessageView, p: Seq<char>) -> MessageView {
    MessageView { prefix: Some(p), ..m }
}

/// The message handed to every peer but the one named `sender`, in order.
pub open spec fn forwards(peers: Seq<Server>, sender: Seq<char>, m: MessageView) -> Seq<DeliveryView>
    decreases peers.len(),
{
    if peers.len() == 0 {
        Seq::empty()
    } else {
        forwards(peers.drop_last(), sender, m)
            + (if peers.last().name@ == sender { Seq::empty() } else { seq![DeliveryView { to_peer: true, target: peers.last().name@, message: m }] })
    }
}

/// The same message with the local server's name as prefix, for every peer but
/// the sender.
pub fn forward_to_peers(server: &Server, sender: &String, msg: &Message) -> (r: Vec<Delivery>)
    ensures
        dels(r@) == forwards(server.connected_servers@, sender@, with_prefix(msg@, server.name@)),
{
    let mut out: Vec<Delivery> = Vec::new();
    assert(dels(out@) =~= Seq::<DeliveryView>::empty());
    let mut i: usize = 0;
    while i < server.connected_servers.len()
        invariant
            i <= server.connected_servers@.len(),
            dels(out@) == forwards(server.connected_servers@.take(i as int), sender@, with_prefix(msg@, server.name@)),
        decreases server.connected_servers@.len() - i,
    {
        let ghost before = dels(out@);
        assert(server.connected_servers@.take(i + 1).drop_last() =~= server.connected_servers@.take(i as int));
        if server.connected_servers[i].name != *sender {
            let mut m = msg.duplicate();
            m.prefix = Some(server.name.clone());
            assert(m@ == with_prefix(msg@, server.name@));
            out.push(Delivery { to_peer: true, target: server.connected_servers[i].name.clone(), message: m });
        }
        assert(dels(out@) =~= forwards(server.connected_servers@.take(i + 1), sender@, with_prefix(msg@, server.name@)));
        i = i + 1;
    }
    assert(server.connected_servers@.take(server.connected_servers@.len() as int) =~= server.connected_servers@);
    out
}

/// What a SQUIT produces: replies to the sender, the SQUIT forwarded to peers,
/// whether this server is the one leaving (and must shut down), and the subtree
/// that was cut off.
pub struct SquitOutcome {
    pub replies: Vec<Message>,
    pub forwards: Vec<Delivery>,
    pub shutdown: bool,
    pub removed: Option<Server>,
}

/// Whether a SQUIT without prefix comes from a server operator.
pub open spec fn squit_authorized(us: Seq<User>, nick: Seq<char>) -> bool {
    let ui = user_index(usrs(us), nick);
    ui >= 0 && us[ui].is_admin
}

/// SQUIT `<server> [<comment>]`: without prefix an operator asks to disconnect a
/// server; with prefix a peer reports it. The command is forwarded to every
/// peer but the sender; the named server's subtree is cut off and its users
/// dropped, or, when this server is named, it shuts down.
pub fn squit_msg(msg: Message, server: &mut Server, users: &mut Vec<User>, user_nickname: &String) -> (r: Result<SquitOutcome, ServerError>)
    ensures
        ({
            let ps = msg@.parameters;
            let ui = user_index(usrs(old(users)@), user_nickname@);
            if ps.len() == 0 {
                &&& r is Ok
                &&& msgs(r->Ok_0.replies@) == seq![err_need_more_params_v(msg@.command)]
                &&& r->Ok_0.forwards@.len() == 0 && !r->Ok_0.shutdown && r->Ok_0.removed is None
                &&& *final(server) == *old(server) && *final(users) == *old(users)
            } else if msg@.prefix is None && ui < 0 {
                r is Err && *final(server) == *old(server) && *final(users) == *old(users)
            } else if msg@.prefix is None && !old(users)@[ui].is_admin {
                &&& r is Ok
                &&& msgs(r->Ok_0.replies@) == seq![err_no_privileges_v()]
                &&& r->Ok_0.forwards@.len() == 0 && !r->Ok_0.shutdown && r->Ok_0.removed is None
                &&& *final(server) == *old(server) && *final(users) == *old(users)
            } else {
                let sender = match msg@.prefix { Some(p) => p, None => Seq::empty() };
                &&& r is Ok
                &&& r->Ok_0.replies@.len() == 0
                &&& dels(r->Ok_0.forwards@) == forwards(old(server).connected_servers@, sender, with_prefix(msg@, old(server).name@))
                &&& r->Ok_0.shutdown == (ps[0] == old(server).name@)
                &&& final(server).name == old(server).name
                &&& (r->Ok_0.shutdown ==> *final(server) == *old(server) && *final(users) == *old(users) && r->Ok_0.removed is None)
                &&& (!r->Ok_0.shutdown ==> {
                    &&& (r->Ok_0.removed is Some <==> reachable(*old(server), ps[0]))
                    &&& (r->Ok_0.removed is None ==> *final(server) == *old(server) && *final(users) == *old(users))
                    &&& (r->Ok_0.removed is Some ==> r->Ok_0.removed->0.name@ == ps[0]
                        && cut_off(*old(server), *final(server), r->Ok_0.removed->0)
                        && usrs(final(users)@) == surviving(usrs(old(users)@), r->Ok_0.removed->0)
                        && (forall|x: Seq<char>| #[trigger] reachable(*final(server), x) ==> reachable(*old(server), x)))
                })
            }
        }),
        !reachable(*old(server), old(server).name@) ==> !reachable(*final(server), final(server).name@),
        unique_nicks(old(users)@) ==> unique_nicks(final(users)@),
{
    let mut replies: Vec<Message> = Vec::new();
    assert(msgs(replies@) =~= Seq::<MessageView>::empty());
    if msg.parameters.len() == 0 {
        push_reply(&mut replies, err_need_more_params(msg.command));
        return Ok(SquitOutcome { replies, forwards: Vec::new(), shutdown: false, removed: None });
    }
    let sender = match &msg.prefix {
        Some(p) => p.clone(),
        None => {
            match crate::directory::find_user(users, user_nickname) {
                None => {
                    proof {
                        assert forall|j: int| 0 <= j < usrs(users@).len() implies usrs(users@)[j].nickname != user_nickname@ by {
                            assert(users@[j].nickname@ == usrs(users@)[j].nickname);
                        }
                        crate::channel_msgs::lemma_user_index(usrs(users@), user_nickname@, -1);
                    }
                    return Err(ServerError::new("Cannot obtain current user"));
                },
                Some(ui) => {
                    proof { crate::channel_msgs::lemma_user_index(usrs(users@), user_nickname@, ui as int); }
                    if !users[ui].is_admin {
                        push_reply(&mut replies, err_no_privileges());
                        return Ok(SquitOutcome { replies, forwards: Vec::new(), shutdown: false, removed: None });
                    }
                },
            }
            String::new()
        },
    };
    let forwards = forward_to_peers(server, &sender, &msg);
    if msg.parameters[0] == server.name {
        return Ok(SquitOutcome { replies, forwards, shutdown: true, removed: None });
    }
    let removed = server.remove_server(&msg.parameters[0]);
    match &removed {
        Some(t) => remove_disconnected_server_users(users, t),
        None => {},
    }
    Ok(SquitOutcome { replies, forwards, shutdown: false, removed })
}

/// After a subtree is cut off, no user left in the directory has its home
/// server in that subtree.
pub proof fn lemma_no_user_left_in_cut_subtree(before: Seq<UserView>, gone: Server)
    ensures
        forall|i: int| 0 <= i < surviving(before, gone).len()
            ==> !in_tree(gone, #[trigger] surviving(before, gone)[i].server),
    decreases before.len(),
{
    if before.len() > 0 {
        lemma_no_user_left_in_cut_subtree(before.drop_last(), gone);
        let prev = surviving(before.drop_last(), gone);
        assert forall|i: int| 0 <= i < surviving(before, gone).len()
            implies !in_tree(gone, #[trigger] surviving(before, gone)[i].server) by {
            if i < prev.len() {
                assert(surviving(before, gone)[i] == prev[i]);
            }
        }
    }
}


/// The users whose home server is `name`, in order.
pub open spec fn keep_local(us: Seq<UserView>, name: Seq<char>) -> Seq<UserView>
    decreases us.len(),
{
    if us.len() == 0 {
        Seq::empty()
    } else {
        keep_local(us.drop_last(), name) + (if us.last().server == name { seq![us.last()] } else { Seq::empty() })
    }
}

/// The remote user described by the five parameters from the `i`-th on:
/// nickname, server, user name, host name, real name.
pub open spec fn remote_user(ps: Seq<Seq<char>>, i: int) -> UserView {
    UserView {
        password: Seq::empty(),
        nickname: ps[i],
        username: ps[i + 2],
        hostname: ps[i + 3],
        server: ps[i + 1],
        realname: ps[i + 4],
        is_admin: false,
        local: false,
        channels: Seq::empty(),
        away_message: None,
    }
}

/// Adding the remote users described from the `i`-th parameter on, five
/// parameters each: those of this server, and nicknames already taken, are
/// skipped.
pub open spec fn add_remote_users(us: Seq<UserView>, ps: Seq<Seq<char>>, local: Seq<char>, i: int) -> Seq<UserView>
    decreases ps.len() - i,
{
    if i < 0 || i + 4 >= ps.len() {
        us
    } else {
        let next = if ps[i + 1] != local && user_index(us, ps[i]) < 0 { us.push(remote_user(ps, i)) } else { us };
        add_remote_users(next, ps, local, i + 5)
    }
}

/// Keeps only the users of this server.
fn retain_local(users: &mut Vec<User>, local: &String)
    ensures
        usrs(final(users)@) == keep_local(usrs(old(users)@), local@),
        forall|a: int| 0 <= a < final(users)@.len() ==> old(users)@.contains(#[trigger] final(users)@[a]),
        unique_nicks(old(users)@) ==> unique_nicks(final(users)@),
{
    let ghost us0 = usrs(users@);
    let ghost old_users = users@;
    let mut kept: Vec<User> = Vec::new();
    let ghost idx: Seq<int> = Seq::empty();
    let ghost n = users@.len() as int;
    let ghost i: int = 0;
    while users.len() > 0
        invariant
            0 <= i <= n,
            n == old_users.len(),
            users@ == old_users.subrange(i, n),
            us0 == usrs(old_users),
            usrs(kept@) == keep_local(us0.take(i), local@),
            idx.len() == kept@.len(),
            forall|a: int| 0 <= a < kept@.len() ==> 0 <= #[trigger] idx[a] < i && kept@[a] == old_users[idx[a]],
            forall|a: int, b: int| 0 <= a < b < kept@.len() ==> #[trigger] idx[a] < #[trigger] idx[b],
        decreases users@.len(),
    {
        let u = users.remove(0);
        assert(u == old_users[i]);
        assert(us0.take(i + 1).drop_last() =~= us0.take(i));
        assert(us0.take(i + 1).last() == u@);
        let ghost before = kept@;
        if u.server == *local {
            kept.push(u);
            proof { idx = idx.push(i); }
            assert(usrs(kept@) =~= usrs(before).push(old_users[i]@));
        } else {
            assert(usrs(kept@) =~= usrs(before) + Seq::<UserView>::empty());
        }
        proof { i = i + 1; }
        assert(users@ =~= old_users.subrange(i, n));
    }
    assert(us0.take(n) =~= us0);
    proof {
        if unique_nicks(old_users) {
            assert forall|a: int, b: int| 0 <= a < kept@.len() && 0 <= b < kept@.len() && a != b
                implies kept@[a].nickname@ != kept@[b].nickname@ by {
                if a < b {
                    assert(idx[a] < idx[b]);
                } else {
                    assert(idx[b] < idx[a]);
                }
            }
        }
        assert forall|a: int| 0 <= a < kept@.len() implies old_users.contains(#[trigger] kept@[a]) by {
            assert(old_users[idx[a]] == kept@[a]);
        }
    }
    *users = kept;
}

/// `SERVER USER_LIST_UPDATE <nick> <server> <user> <host> <real> ...`: replaces
/// the remote part of the directory by the users described (keeping this
/// server's own users, and never admitting a nickname twice), and forwards the
/// update to every peer but the sender.
pub fn process_users_list_notification(server: &Server, users: &mut Vec<User>, msg: &Message) -> (r: Vec<Delivery>)
    ensures
        usrs(final(users)@) == add_remote_users(keep_local(usrs(old(users)@), server.name@), msg@.parameters, server.name@, 1),
        dels(r@) == forwards(server.connected_servers@, match msg@.prefix { Some(p) => p, None => Seq::empty() },
            with_prefix(msg@, server.name@)),
        unique_nicks(old(users)@) ==> unique_nicks(final(users)@),
{
    retain_local(users, &server.name);
    let ghost ps = msg@.parameters;
    let mut i: usize = 1;
    assert(ps.len() == msg.parameters@.len());
    while i < msg.parameters.len() && msg.parameters.len() - i > 4
        invariant
            1 <= i,
            i <= msg.parameters@.len() + 5,
            ps.len() == msg.parameters@.len(),
            ps == msg@.parameters,
            add_remote_users(keep_local(usrs(old(users)@), server.name@), ps, server.name@, 1)
                == add_remote_users(usrs(users@), ps, server.name@, i as int),
            unique_nicks(old(users)@) ==> unique_nicks(users@),
        decreases msg.parameters@.len() + 5 - i,
    {
        let nick = &msg.parameters[i];
        let ghost before = users@;
        if msg.parameters[i + 1] != server.name && crate::directory::find_user(users, nick).is_none() {
            let mut u = User::new(false);
            u.set_nickname(msg.parameters[i].clone());
            u.set_server(msg.parameters[i + 1].clone());
            u.set_host(msg.parameters[i + 3].clone());
            u.set_username(msg.parameters[i + 2].clone());
            u.set_realname(msg.parameters[i + 4].clone());
            proof {
                assert forall|j: int| 0 <= j < usrs(before).len() implies usrs(before)[j].nickname != ps[i as int] by {
                    assert(before[j].nickname@ == usrs(before)[j].nickname);
                }
                crate::channel_msgs::lemma_user_index(usrs(before), ps[i as int], -1);
            }
            users.push(u);
            assert(u@.channels =~= Seq::<Seq<char>>::empty());
            assert(u@.password =~= Seq::<char>::empty());
            assert(ps[i as int] == msg.parameters@[i as int]@);
            assert(ps[i + 1] == msg.parameters@[i + 1]@);
            assert(ps[i + 2] == msg.parameters@[i + 2]@);
            assert(ps[i + 3] == msg.parameters@[i + 3]@);
            assert(ps[i + 4] == msg.parameters@[i + 4]@);
            assert(u@ == remote_user(ps, i as int));
            assert(usrs(users@) =~= usrs(before).push(remote_user(ps, i as int)));
        } else {
            proof {
                if msg.parameters@[i + 1]@ != server.name@ {
                    let j = choose|j: int| 0 <= j < before.len() && before[j].nickname@ == ps[i as int];
                    crate::channel_msgs::lemma_user_index_found(usrs(before), ps[i as int]);
                    assert(usrs(before)[j].nickname == ps[i as int]);
                }
            }
        }
        i = i + 5;
    }
    let sender = match &msg.prefix {
        Some(p) => p.clone(),
        None => String::new(),
    };
    forward_to_peers(server, &sender, msg)
}


/// The value a flag-like field reads as: none when it starts with `.`.
pub open spec fn dotted(v: Seq<char>) -> Option<Seq<char>> {
    if v.len() > 0 && v[0] == '.' { None } else { Some(v) }
}

/// The channel described by the eight parameters from the `i`-th on: name,
/// members, topic, operators, limit, ban masks, voiced users, key.
pub open spec fn gossip_channel(ps: Seq<Seq<char>>, i: int) -> ChannelView {
    ChannelView {
        name: ps[i],
        users: read_list(ps[i + 1]),
        topic: dotted(ps[i + 2]),
        admins: read_list(ps[i + 3]),
        mode: ChannelModes::none(),
        limit: usize_of(ps[i + 4]),
        bans: if ps[i + 5][0] == '.' { Seq::empty() } else { read_list(ps[i + 5]) },
        speakers: if ps[i + 6][0] == '.' { Seq::empty() } else { read_list(ps[i + 6]) },
        password: dotted(ps[i + 7]),
    }
}

/// Whether the comma-led lists of a channel description are all present.
pub open spec fn lists_present(ps: Seq<Seq<char>>, i: int) -> bool {
    ps[i + 1].len() > 0 && ps[i + 3].len() > 0 && ps[i + 5].len() > 0 && ps[i + 6].len() > 0
}

/// Adding the channels described from the `i`-th parameter on, eight
/// parameters each; a description whose member list is this server's name, or
/// with a list missing, is skipped.
pub open spec fn add_gossip_channels(chs: Seq<ChannelView>, ps: Seq<Seq<char>>, local: Seq<char>, i: int) -> Seq<ChannelView>
    decreases ps.len() - i,
{
    if i < 0 || i + 7 >= ps.len() {
        chs
    } else {
        let next = if ps[i + 1] != local && lists_present(ps, i) { chs.push(gossip_channel(ps, i)) } else { chs };
        add_gossip_channels(next, ps, local, i + 8)
    }
}

/// `SERVER CHANNEL_LIST_UPDATE <name> <members> <topic> <operators> <limit>
/// <bans> <voiced> <key> ...`: adds the channels described, and forwards the
/// update to every peer but the sender.
pub fn process_channel_list_notification(server: &Server, channels: &mut Vec<Channel>, msg: &Message) -> (r: Vec<Delivery>)
    ensures
        chans(final(channels)@) == add_gossip_channels(chans(old(channels)@), msg@.parameters, server.name@, 1),
        dels(r@) == forwards(server.connected_servers@, match msg@.prefix { Some(p) => p, None => Seq::empty() },
            with_prefix(msg@, server.name@)),
{
    let ghost ps = msg@.parameters;
    assert(ps.len() == msg.parameters@.len());
    let mut i: usize = 1;
    while i < msg.parameters.len() && msg.parameters.len() - i > 7
        invariant
            1 <= i,
            ps == msg@.parameters,
            ps.len() == msg.parameters@.len(),
            add_gossip_channels(chans(old(channels)@), ps, server.name@, 1)
                == add_gossip_channels(chans(channels@), ps, server.name@, i as int),
        decreases msg.parameters@.len() + 8 - i,
    {
        proof {
            assert forall|k: int| 0 <= k < 8 implies ps[i + k] == #[trigger] msg.parameters@[i + k]@ by {}
        }
        let p = &msg.parameters;
        let present = !p[i + 1].as_str().is_empty() && !p[i + 3].as_str().is_empty()
            && !p[i + 5].as_str().is_empty() && !p[i + 6].as_str().is_empty();
        if p[i + 1] != server.name && present {
            assert(ps[i + 1] == p@[i + 1]@ && ps[i + 3] == p@[i + 3]@ && ps[i + 5] == p@[i + 5]@ && ps[i + 6] == p@[i + 6]@);
            let mut c = Channel::new(&p[i]);
            assert(c@.bans =~= Seq::<Seq<char>>::empty());
            assert(c@.speakers =~= Seq::<Seq<char>>::empty());
            c.set_users(p[i + 1].clone());
            c.set_topic(p[i + 2].clone());
            c.set_admins(p[i + 3].clone());
            c.set_limit(p[i + 4].clone());
            c.set_ban_list(p[i + 5].clone());
            c.set_speak_users(p[i + 6].clone());
            c.set_password(p[i + 7].clone());
            assert(ps[i + 2] == p@[i + 2]@ && ps[i + 4] == p@[i + 4]@ && ps[i + 7] == p@[i + 7]@ && ps[i as int] == p@[i as int]@);
            assert(c@ == gossip_channel(ps, i as int));
            let ghost before = chans(channels@);
            channels.push(c);
            assert(chans(channels@) =~= before.push(gossip_channel(ps, i as int)));
        }
        i = i + 8;
    }
    let sender = match &msg.prefix {
        Some(p) => p.clone(),
        None => String::new(),
    };
    forward_to_peers(server, &sender, msg)
}

/// The hop count after one more hop (it stays at the largest value).
pub open spec fn next_hop(h: usize) -> usize {
    if h < usize::MAX { (h + 1) as usize } else { h }
}

/// The SERVER line announcing `name` with that hop count.
pub open spec fn server_line(prefix: Seq<char>, name: Seq<char>, hop: usize) -> MessageView {
    parse_spec(":"@ + prefix + " SERVER "@ + name + " "@ + decimal(hop as nat))
}

/// The announcements of `name` to each peer that does not already reach it,
/// the hop count growing by one for each; with the last hop count used.
pub open spec fn announce(peers: Seq<Server>, prefix: Seq<char>, name: Seq<char>, hop: usize) -> (Seq<DeliveryView>, usize)
    decreases peers.len(),
{
    if peers.len() == 0 {
        (Seq::empty(), hop)
    } else {
        let (d, h) = announce(peers.drop_last(), prefix, name, hop);
        if reachable(peers.last(), name) {
            (d, h)
        } else {
            let h2 = next_hop(h);
            (d.push(DeliveryView { to_peer: true, target: peers.last().name@, message: server_line(prefix, name, h2) }), h2)
        }
    }
}

/// What a `SERVER <name> <hopcount>` announcement from a peer does to the tree,
/// and the announcements it sends on: a malformed one, or one naming this server
/// or a server already reachable, changes nothing; otherwise the new server is
/// hung beneath the sender's node and announced to every peer that does not
/// reach it yet.
pub open spec fn announced(old: Server, new: Server, m: MessageView, out: Seq<DeliveryView>) -> bool {
    let ps = m.parameters;
    if ps.len() < 2 || m.prefix is None || usize_of(ps[1]) is None
        || ps[0] == old.name@ || reachable(old, ps[0]) {
        out.len() == 0 && new == old
    } else {
        let prefix = m.prefix->0;
        &&& new.name == old.name
        &&& (forall|x: Seq<char>| #[trigger] reachable(new, x)
            <==> (reachable(old, x) || (reachable(old, prefix) && x == ps[0])))
        &&& (reachable(old, prefix) ==> out == announce(new.connected_servers@, prefix, ps[0], usize_of(ps[1])->0).0
            && hung_under(old, new, prefix, ps[0]))
        &&& (!reachable(old, prefix) ==> out.len() == 0 && new == old)
    }
}

/// `SERVER <name> <hopcount>` from a peer: places the new server beneath the
/// sender and announces it onward to the peers that do not reach it yet.
pub fn process_server_notification(server: &mut Server, msg: &Message) -> (r: Vec<Delivery>)
    ensures
        announced(*old(server), *final(server), msg@, dels(r@)),
        !reachable(*old(server), old(server).name@) ==> !reachable(*final(server), final(server).name@),
{
    let mut out: Vec<Delivery> = Vec::new();
    if msg.parameters.len() < 2 {
        return out;
    }
    let prefix = match &msg.prefix {
        Some(p) => p,
        None => return out,
    };
    let hop0 = match parse_usize(msg.parameters[1].as_str()) {
        Some(h) => h,
        None => return out,
    };
    let name = &msg.parameters[0];
    if *name == server.name || server.is_connected_to(name) {
        return out;
    }
    if !server.attach_server(prefix, name.clone()) {
        return out;
    }
    assert(dels(out@) =~= Seq::<DeliveryView>::empty());
    let mut hop = hop0;
    let mut i: usize = 0;
    while i < server.connected_servers.len()
        invariant
            i <= server.connected_servers@.len(),
            name@ == msg@.parameters[0],
            (dels(out@), hop) == announce(server.connected_servers@.take(i as int), prefix@, name@, hop0),
        decreases server.connected_servers@.len() - i,
    {
        assert(server.connected_servers@.take(i + 1).drop_last() =~= server.connected_servers@.take(i as int));
        if !server.connected_servers[i].is_connected_to(name) {
            if hop < usize::MAX {
                hop = hop + 1;
            }
            let line = concat(":", prefix.as_str());
            let line = concat(line.as_str(), " SERVER ");
            let line = concat(line.as_str(), name.as_str());
            let line = concat(line.as_str(), " ");
            let num = usize_to_string(hop);
            let line = concat(line.as_str(), num.as_str());
            let ghost before = dels(out@);
            out.push(Delivery { to_peer: true, target: server.connected_servers[i].name.clone(), message: parse_line(line.as_str()) });
            assert(dels(out@) =~= before.push(dels(out@).last()));
        }
        i = i + 1;
    }
    assert(server.connected_servers@.take(server.connected_servers@.len() as int) =~= server.connected_servers@);
    out
}

/// A SERVER command from a peer: user list and channel list updates, or the
/// announcement of a new server.
pub fn server_msg(msg: Message, server: &mut Server, users: &mut Vec<User>, channels: &mut Vec<Channel>) -> (r: Result<Outcome, ServerError>)
    ensures
        r is Ok,
        r->Ok_0.replies@.len() == 0,
        msg@.parameters.len() == 0 ==> r->Ok_0.deliveries@.len() == 0 && *final(server) == *old(server)
            && *final(users) == *old(users) && *final(channels) == *old(channels),
        msg@.parameters.len() > 0 && msg@.parameters[0] == "USER_LIST_UPDATE"@ ==>
            usrs(final(users)@) == add_remote_users(keep_local(usrs(old(users)@), old(server).name@), msg@.parameters, old(server).name@, 1)
            && *final(server) == *old(server) && *final(channels) == *old(channels),
        msg@.parameters.len() > 0 && msg@.parameters[0] == "CHANNEL_LIST_UPDATE"@ ==>
            chans(final(channels)@) == add_gossip_channels(chans(old(channels)@), msg@.parameters, old(server).name@, 1)
            && *final(server) == *old(server) && *final(users) == *old(users),
        msg@.parameters.len() > 0 && msg@.parameters[0] != "USER_LIST_UPDATE"@ && msg@.parameters[0] != "CHANNEL_LIST_UPDATE"@ ==>
            *final(users) == *old(users) && *final(channels) == *old(channels)
            && announced(*old(server), *final(server), msg@, dels(r->Ok_0.deliveries@)),
        msg@.parameters.len() > 0 && (msg@.parameters[0] == "USER_LIST_UPDATE"@ || msg@.parameters[0] == "CHANNEL_LIST_UPDATE"@) ==>
            dels(r->Ok_0.deliveries@) == forwards(old(server).connected_servers@, match msg@.prefix { Some(p) => p, None => Seq::empty() },
                with_prefix(msg@, old(server).name@)),
        unique_nicks(old(users)@) ==> unique_nicks(final(users)@),
        !reachable(*old(server), old(server).name@) ==> !reachable(*final(server), final(server).name@),
{
    let mut replies: Vec<Message> = Vec::new();
    if msg.parameters.len() == 0 {
        return Ok(Outcome { replies, deliveries: Vec::new() });
    }
    let user_update = String::from_str("USER_LIST_UPDATE");
    let channel_update = String::from_str("CHANNEL_LIST_UPDATE");
    proof {
        reveal_strlit("USER_LIST_UPDATE");
        reveal_strlit("CHANNEL_LIST_UPDATE");
        assert("USER_LIST_UPDATE"@[0] != "CHANNEL_LIST_UPDATE"@[0]);
    }
    let deliveries = if msg.parameters[0] == user_update {
        process_users_list_notification(server, users, &msg)
    } else if msg.parameters[0] == channel_update {
        process_channel_list_notification(server, channels, &msg)
    } else {
        process_server_notification(server, &msg)
    };
    Ok(Outcome { replies, deliveries })
}


/// One user's entry in a user list update: nickname, server, user name, host
/// name and real name, each followed by a space.
pub open spec fn user_entry(u: UserView) -> Seq<char> {
    u.nickname + " "@ + u.server + " "@ + u.username + " "@ + u.hostname + " "@ + u.realname + " "@
}

/// The entries of every user, in order.
pub open spec fn user_entries(us: Seq<UserView>) -> Seq<char>
    decreases us.len(),
{
    if us.len() == 0 { Seq::empty() } else { user_entries(us.drop_last()) + user_entry(us.last()) }
}

/// The entry of one user in a user list update.
fn user_entry_text(u: &User) -> (r: String)
    ensures
        r@ == user_entry(u@),
{
    let mut line = u.nickname.clone();
    line.append(" ");
    line.append(u.server.as_str());
    line.append(" ");
    line.append(u.username.as_str());
    line.append(" ");
    line.append(u.hostname.as_str());
    line.append(" ");
    line.append(u.realname.as_str());
    line.append(" ");
    assert(line@ =~= user_entry(u@));
    line
}

/// The user list update this server sends: `:<self> SERVER USER_LIST_UPDATE `
/// followed by every user's entry.
pub fn user_list_update_line(server_name: &String, users: &Vec<User>) -> (r: String)
    ensures
        r@ == ":"@ + server_name@ + " SERVER USER_LIST_UPDATE "@ + user_entries(usrs(users@)),
{
    let mut line = concat(":", server_name.as_str());
    line.append(" SERVER USER_LIST_UPDATE ");
    let ghost head = line@;
    let ghost us = usrs(users@);
    let mut i: usize = 0;
    while i < users.len()
        invariant
            i <= users@.len(),
            us == usrs(users@),
            line@ == head + user_entries(us.take(i as int)),
        decreases users@.len() - i,
    {
        let u = &users[i];
        let ghost before = line@;
        let entry = user_entry_text(u);
        line.append(entry.as_str());
        assert(us.take(i + 1).drop_last() =~= us.take(i as int));
        assert(us.take(i + 1).last() == u@);
        i = i + 1;
    }
    assert(us.take(users@.len() as int) =~= us);
    line
}

/// One channel's entry in a channel list update: its name and its seven lists,
/// each followed by a space.
pub open spec fn channel_entry(c: ChannelView) -> Seq<char> {
    c.name + " "@ + crate::replies::prefixed_join(c.users, ","@) + " "@
        + (match c.topic { Some(t) => t, None => "."@ }) + " "@
        + crate::replies::prefixed_join(c.admins, ","@) + " "@
        + (match c.limit { Some(l) => decimal(l as nat), None => "."@ }) + " "@
        + crate::channel::dotted_list(c.bans) + " "@
        + crate::channel::dotted_list(c.speakers) + " "@
        + (match c.password { Some(k) => k, None => "."@ }) + " "@
}

/// The entries of the `&`-channels, in order.
pub open spec fn channel_entries(chs: Seq<ChannelView>) -> Seq<char>
    decreases chs.len(),
{
    if chs.len() == 0 {
        Seq::empty()
    } else {
        let c = chs.last();
        channel_entries(chs.drop_last()) + (if c.name.len() > 0 && c.name[0] == '&' { channel_entry(c) } else { Seq::empty() })
    }
}

/// The entry of one channel in a channel list update.
fn channel_entry_text(c: &Channel) -> (r: String)
    ensures
        r@ == channel_entry(c@),
{
    let mut line = c.name.clone();
    line.append(" ");
    line.append(c.get_users_list().as_str());
    line.append(" ");
    line.append(c.get_topic_option().as_str());
    line.append(" ");
    line.append(c.get_admins_list().as_str());
    line.append(" ");
    let ghost mid = line@;
    line.append(c.get_limit_option().as_str());
    line.append(" ");
    line.append(c.get_ban_list().as_str());
    line.append(" ");
    line.append(c.get_can_speak_users_list().as_str());
    line.append(" ");
    line.append(c.get_password_option().as_str());
    line.append(" ");
    assert(c@.topic == crate::message::opt_view(c.topic));
    assert(line@ =~= channel_entry(c@));
    line
}

/// The channel list update sent to a new peer: `:<self> SERVER
/// CHANNEL_LIST_UPDATE ` followed by the entry of each `&`-channel.
pub fn channel_list_update_line(server_name: &String, channels: &Vec<Channel>) -> (r: String)
    ensures
        r@ == ":"@ + server_name@ + " SERVER CHANNEL_LIST_UPDATE "@ + channel_entries(chans(channels@)),
{
    let mut line = concat(":", server_name.as_str());
    line.append(" SERVER CHANNEL_LIST_UPDATE ");
    let ghost head = line@;
    let ghost chs = chans(channels@);
    let mut i: usize = 0;
    while i < channels.len()
        invariant
            i <= channels@.len(),
            chs == chans(channels@),
            line@ == head + channel_entries(chs.take(i as int)),
        decreases channels@.len() - i,
    {
        let c = &channels[i];
        let ghost before = line@;
        assert(chs.take(i + 1).drop_last() =~= chs.take(i as int));
        assert(chs.take(i + 1).last() == c@);
        let first = crate::text::chars_of(c.name.as_str());
        if first.len() > 0 && first[0] == '&' {
            let entry = channel_entry_text(c);
            line.append(entry.as_str());
        } else {
            assert(line@ =~= before + Seq::<char>::empty());
        }
        i = i + 1;
    }
    assert(chs.take(channels@.len() as int) =~= chs);
    line
}

/// The text of a SERVER line: `:<parent> SERVER <name> <hop>`.
pub open spec fn server_text(parent: Seq<char>, name: Seq<char>, hop: usize) -> Seq<char> {
    ":"@ + parent + " SERVER "@ + name + " "@ + decimal(hop as nat)
}

/// The SERVER lines describing `node` (announced by `parent`) and, one hop
/// further each level, everything beneath it.
pub open spec fn subtree_lines(node: Server, parent: Seq<char>, hop: usize) -> Seq<Seq<char>>
    decreases node, 1int, 0int,
{
    seq![server_text(parent, node.name@, hop)] + peers_lines(node, 0, next_hop(hop))
}

/// The SERVER lines describing the peers of `node` from the `i`-th on, each
/// announced by `node`.
pub open spec fn peers_lines(node: Server, i: int, hop: usize) -> Seq<Seq<char>>
    decreases node, 0int, node.connected_servers@.len() - i,
{
    if 0 <= i < node.connected_servers@.len() {
        subtree_lines(node.connected_servers@[i], node.name@, hop) + peers_lines(node, i + 1, hop)
    } else {
        Seq::empty()
    }
}

/// Appends the SERVER lines describing everything beneath `node`.
pub fn servers_list(node: &Server, hop: usize, out: &mut Vec<String>)
    ensures
        strs(final(out)@) == strs(old(out)@) + peers_lines(*node, 0, hop),
    decreases *node,
{
    let ghost start = strs(out@);
    let next = if hop < usize::MAX { hop + 1 } else { hop };
    let mut i: usize = 0;
    while i < node.connected_servers.len()
        invariant
            i <= node.connected_servers@.len(),
            next == next_hop(hop),
            start + peers_lines(*node, 0, hop) == strs(out@) + peers_lines(*node, i as int, hop),
        decreases node.connected_servers@.len() - i,
    {
        let peer = &node.connected_servers[i];
        assert(decreases_to!(*node => node.connected_servers));
        assert(decreases_to!(node.connected_servers => node.connected_servers[i as int]));
        let ghost before = strs(out@);
        let line = concat(":", node.name.as_str());
        let line = concat(line.as_str(), " SERVER ");
        let line = concat(line.as_str(), peer.name.as_str());
        let line = concat(line.as_str(), " ");
        let num = usize_to_string(hop);
        let line = concat(line.as_str(), num.as_str());
        out.push(line);
        assert(strs(out@) =~= before.push(server_text(node.name@, peer.name@, hop)));
        servers_list(peer, next, out);
        assert(peers_lines(*node, i as int, hop) == subtree_lines(*peer, node.name@, hop) + peers_lines(*node, i + 1, hop));
        assert(strs(out@) =~= before + subtree_lines(*peer, node.name@, hop));
        i = i + 1;
    }
    assert(strs(out@) =~= strs(out@) + peers_lines(*node, i as int, hop));
}

/// Appends a peer to this server unless a server of that name is this one or
/// is already reachable; returns whether it was added.
pub fn add_peer(server: &mut Server, name: String) -> (r: bool)
    ensures
        r == (name@ != old(server).name@ && !reachable(*old(server), name@)),
        !r ==> *final(server) == *old(server),
        r ==> final(server).name == old(server).name && final(server).connected_servers@.len() == old(server).connected_servers@.len() + 1
            && final(server).connected_servers@.drop_last() == old(server).connected_servers@
            && final(server).connected_servers@.last().name == name && final(server).connected_servers@.last().connected_servers@.len() == 0,
        forall|x: Seq<char>| #[trigger] reachable(*final(server), x) <==> (reachable(*old(server), x) || (r && x == name@)),
        !reachable(*old(server), old(server).name@) ==> !reachable(*final(server), final(server).name@),
{
    if name == server.name || server.is_connected_to(&name) {
        return false;
    }
    let ghost before = *server;
    let leaf = Server::leaf(name);
    let ghost leaf0 = leaf;
    server.connected_servers.push(leaf);
    proof {
        assert(server.connected_servers@.drop_last() =~= before.connected_servers@);
        assert forall|x: Seq<char>| #[trigger] reachable(*server, x) <==> (reachable(before, x) || x == leaf0.name@) by {
            crate::net::lemma_reachable_exists(*server, x);
            crate::net::lemma_reachable_exists(before, x);
            crate::net::lemma_reachable_exists(leaf0, x);
            assert(in_tree(leaf0, x) == (leaf0.name@ == x || reachable(leaf0, x)));
            if reachable(*server, x) {
                let j = choose|j: int| 0 <= j < server.connected_servers@.len() && #[trigger] in_tree(server.connected_servers@[j], x);
                if j < before.connected_servers@.len() {
                    assert(server.connected_servers@[j] == before.connected_servers@[j]);
                }
            }
            if reachable(before, x) {
                let j = choose|j: int| 0 <= j < before.connected_servers@.len() && #[trigger] in_tree(before.connected_servers@[j], x);
                assert(server.connected_servers@[j] == before.connected_servers@[j]);
            }
            if x == leaf0.name@ {
                assert(server.connected_servers@[before.connected_servers@.len() as int] == leaf0);
            }
        }
    }
    true
}

} // verus!
