use vstd::prelude::*;
use crate::channel::{ChannelView, activate_step, deactivate_step, apply_modes, add_once, subset_of};
use crate::channel_modes::is_flag_letter;
use crate::message::MessageView;
use crate::text::remove_first;
use crate::channel_msgs::{
    channel_index, join_one, part_one, lemma_channel_index, lemma_channel_index_found, join_gate,
    admitted, departed, new_channel_view,
};
use crate::user::UserView;
use crate::text::{split_spec, split_from};
use crate::channel_msgs::{join_all, part_all, user_index};
use crate::commands::{
    DeliveryView, priv_spec, to_targets, to_target, deliver_spec, autoreply_v, is_channel_target,
};
use crate::net::{Server, route_from};

verus! {

/// No name occurs twice.
pub open spec fn no_dup(s: Seq<Seq<char>>) -> bool {
    forall|i: int, j: int| 0 <= i < s.len() && 0 <= j < s.len() && i != j ==> s[i] != s[j]
}

/// A channel's lists hold each name once, and its operators and voiced users
/// are members.
pub open spec fn channel_wf(c: ChannelView) -> bool {
    &&& no_dup(c.users)
    &&& no_dup(c.admins)
    &&& no_dup(c.speakers)
    &&& subset_of(c.admins, c.users)
    &&& subset_of(c.speakers, c.users)
}

/// What `remove_first` keeps: everything but one occurrence of `v`.
pub proof fn lemma_remove_first_contains(s: Seq<Seq<char>>, v: Seq<char>, x: Seq<char>)
    ensures
        remove_first(s, v).contains(x) ==> s.contains(x),
        s.contains(x) && x != v ==> remove_first(s, v).contains(x),
        no_dup(s) ==> no_dup(remove_first(s, v)) && !remove_first(s, v).contains(v),
        !s.contains(v) ==> remove_first(s, v) == s,
    decreases s.len(),
{
    if s.len() > 0 {
        let t = s.drop_first();
        lemma_remove_first_contains(t, v, x);
        assert(forall|k: int| 0 <= k < t.len() ==> t[k] == s[k + 1]);
        if remove_first(s, v).contains(x) {
            let k = choose|k: int| 0 <= k < remove_first(s, v).len() && remove_first(s, v)[k] == x;
            if s[0] == v {
                assert(s[k + 1] == x);
            } else if k == 0 {
                assert(s[0] == x);
            } else {
                assert(remove_first(t, v)[k - 1] == x);
                assert(t.contains(x));
                let k2 = choose|k2: int| 0 <= k2 < t.len() && t[k2] == x;
                assert(s[k2 + 1] == x);
            }
        }
        if s.contains(x) && x != v {
            let k = choose|k: int| 0 <= k < s.len() && s[k] == x;
            if k == 0 {
                assert(s[0] != v);
                assert(remove_first(s, v)[0] == x);
            } else {
                assert(t[k - 1] == x);
                assert(t.contains(x));
                if s[0] == v {
                    assert(remove_first(s, v)[k - 1] == x);
                } else {
                    let k2 = choose|k2: int| 0 <= k2 < remove_first(t, v).len() && remove_first(t, v)[k2] == x;
                    assert(remove_first(s, v)[k2 + 1] == x);
                }
            }
        }
        if no_dup(s) {
            assert(no_dup(t)) by {
                assert forall|i: int, j: int| 0 <= i < t.len() && 0 <= j < t.len() && i != j implies t[i] != t[j] by {
                    assert(s[i + 1] != s[j + 1]);
                }
            }
            if s[0] == v {
                assert(!t.contains(v)) by {
                    if t.contains(v) {
                        let k = choose|k: int| 0 <= k < t.len() && t[k] == v;
                        assert(s[k + 1] == s[0]);
                    }
                }
            } else {
                let r = remove_first(s, v);
                let rt = remove_first(t, v);
                assert(r == seq![s[0]] + rt);
                assert forall|i: int, j: int| 0 <= i < r.len() && 0 <= j < r.len() && i != j implies r[i] != r[j] by {
                    if i == 0 && j > 0 {
                        lemma_remove_first_contains(t, v, r[j]);
                        assert(rt.contains(r[j])) by { assert(rt[j - 1] == r[j]); }
                        let k = choose|k: int| 0 <= k < t.len() && t[k] == r[j];
                        assert(s[k + 1] != s[0]);
                    } else if j == 0 && i > 0 {
                        lemma_remove_first_contains(t, v, r[i]);
                        assert(rt.contains(r[i])) by { assert(rt[i - 1] == r[i]); }
                        let k = choose|k: int| 0 <= k < t.len() && t[k] == r[i];
                        assert(s[k + 1] != s[0]);
                    } else if i > 0 && j > 0 {
                        assert(rt[i - 1] != rt[j - 1]);
                    }
                }
                if r.contains(v) {
                    let k = choose|k: int| 0 <= k < r.len() && r[k] == v;
                    if k > 0 {
                        assert(rt[k - 1] == v);
                    }
                }
            }
        }
        if !s.contains(v) {
            assert(s[0] != v);
            assert(!t.contains(v)) by {
                if t.contains(v) {
                    let k = choose|k: int| 0 <= k < t.len() && t[k] == v;
                    assert(s[k + 1] == v);
                }
            }
            assert(seq![s[0]] + t =~= s);
        }
    }
}

/// What `add_once` holds: what was there, and the name added.
pub proof fn lemma_add_once_contains(s: Seq<Seq<char>>, v: Seq<char>, x: Seq<char>)
    ensures
        add_once(s, v).contains(x) <==> (s.contains(x) || x == v),
        no_dup(s) ==> no_dup(add_once(s, v)),
{
    if !s.contains(v) {
        let t = s.push(v);
        if t.contains(x) {
            let k = choose|k: int| 0 <= k < t.len() && t[k] == x;
            if k < s.len() {
                assert(s[k] == x);
            }
        }
        if s.contains(x) {
            let k = choose|k: int| 0 <= k < s.len() && s[k] == x;
            assert(t[k] == x);
        }
        if x == v {
            assert(t[s.len() as int] == x);
        }
        if no_dup(s) {
            assert forall|i: int, j: int| 0 <= i < t.len() && 0 <= j < t.len() && i != j implies t[i] != t[j] by {
                if i == s.len() {
                    assert(t[j] == s[j]);
                } else if j == s.len() {
                    assert(t[i] == s[i]);
                }
            }
        }
    }
}

/// One `+<mode>` keeps a channel well formed.
pub proof fn lemma_activate_keeps_wf(c: ChannelView, m: MessageView, mode: char)
    requires
        channel_wf(c),
    ensures
        channel_wf(activate_step(c, m, mode).0),
{
    let r = activate_step(c, m, mode).0;
    if (mode == 'o' || mode == 'v') && m.parameters.len() >= 3 && c.users.contains(m.parameters[2]) {
        let n = m.parameters[2];
        assert forall|x: Seq<char>| #[trigger] add_once(c.admins, n).contains(x) implies c.users.contains(x) by {
            lemma_add_once_contains(c.admins, n, x);
        }
        assert forall|x: Seq<char>| #[trigger] add_once(c.speakers, n).contains(x) implies c.users.contains(x) by {
            lemma_add_once_contains(c.speakers, n, x);
        }
        lemma_add_once_contains(c.admins, n, n);
        lemma_add_once_contains(c.speakers, n, n);
    }
}

/// One `-<mode>` keeps a channel well formed.
pub proof fn lemma_deactivate_keeps_wf(c: ChannelView, m: MessageView, mode: char)
    requires
        channel_wf(c),
    ensures
        channel_wf(deactivate_step(c, m, mode).0),
{
    if (mode == 'o' || mode == 'v') && m.parameters.len() >= 3 && c.users.contains(m.parameters[2]) {
        let n = m.parameters[2];
        assert forall|x: Seq<char>| #[trigger] remove_first(c.admins, n).contains(x) implies c.users.contains(x) by {
            lemma_remove_first_contains(c.admins, n, x);
        }
        assert forall|x: Seq<char>| #[trigger] remove_first(c.speakers, n).contains(x) implies c.users.contains(x) by {
            lemma_remove_first_contains(c.speakers, n, x);
        }
        lemma_remove_first_contains(c.admins, n, n);
        lemma_remove_first_contains(c.speakers, n, n);
    }
}

/// A MODE command, letter after letter, keeps operators and voiced users among
/// the members, each listed once.
pub proof fn lemma_modes_keep_wf(c: ChannelView, m: MessageView, letters: Seq<char>, on: bool, replies: Seq<MessageView>)
    requires
        channel_wf(c),
    ensures
        channel_wf(apply_modes(c, m, letters, on, replies).0),
    decreases letters.len(),
{
    if letters.len() > 0 {
        lemma_modes_keep_wf(c, m, letters.drop_last(), on, replies);
        let prev = apply_modes(c, m, letters.drop_last(), on, replies);
        if on {
            lemma_activate_keeps_wf(prev.0, m, letters.last());
        } else {
            lemma_deactivate_keeps_wf(prev.0, m, letters.last());
        }
    }
}

/// Switching a flag without argument on and then off gives back the channel it
/// started from, when the flag was off.
pub proof fn lemma_channel_flag_round_trip(c: ChannelView, m: MessageView, mode: char)
    requires
        mode == 'p' || mode == 's' || mode == 'i' || mode == 't' || mode == 'n' || mode == 'm',
        !c.mode.flag(mode),
    ensures
        deactivate_step(activate_step(c, m, mode).0, m, mode).0 == c,
        activate_step(c, m, mode).1.len() == 0,
        deactivate_step(activate_step(c, m, mode).0, m, mode).1.len() == 0,
{
    crate::channel_modes::lemma_activate_deactivate_restores(c.mode, mode);
}


/// Removing a name just appended, when it was not there before, gives back the
/// original sequence.
pub proof fn lemma_remove_pushed(s: Seq<Seq<char>>, x: Seq<char>)
    requires
        !s.contains(x),
    ensures
        remove_first(s.push(x), x) == s,
    decreases s.len(),
{
    if s.len() == 0 {
        assert(s.push(x).drop_first() =~= s);
    } else {
        let t = s.drop_first();
        assert(!t.contains(x)) by {
            if t.contains(x) {
                let k = choose|k: int| 0 <= k < t.len() && t[k] == x;
                assert(s[k + 1] == x);
            }
        }
        lemma_remove_pushed(t, x);
        assert(s.push(x)[0] == s[0]);
        assert(s[0] != x);
        assert(s.push(x).drop_first() =~= t.push(x));
        assert(seq![s[0]] + t =~= s);
    }
}

/// Joining a channel and leaving it again gives back the channel list and the
/// user's channels as they were, for a user that was neither a member of the
/// channel nor had it among its channels, when the channel, if it exists, is
/// well formed and has members.
pub proof fn lemma_join_part_restores(chs: Seq<ChannelView>, u: UserView, name: Seq<char>, params: Seq<Seq<char>>, out: Seq<MessageView>)
    requires
        !u.channels.contains(name),
        channel_index(chs, name) >= 0 ==> ({
            let c = chs[channel_index(chs, name)];
            !c.users.contains(u.nickname) && channel_wf(c) && c.users.len() > 0
        }),
    ensures
        ({
            let after = part_one(join_one((chs, u, out), name, params), name);
            after.0 == chs && after.1 == u
        }),
{
    lemma_channel_index_found(chs, name);
    let idx = channel_index(chs, name);
    let n = u.nickname;
    if idx >= 0 {
        let c = chs[idx];
        if join_gate(c, u, params) is None {
            let c2 = admitted(c, n);
            let chs2 = chs.update(idx, c2);
            lemma_channel_index(chs2, name, idx);
            assert(c2.users == c.users.push(n));
            assert(c2.users.contains(n)) by { assert(c2.users[c.users.len() as int] == n); }
            lemma_remove_pushed(c.users, n);
            assert(!c.admins.contains(n));
            assert(!c.speakers.contains(n));
            lemma_remove_first_contains(c.admins, n, n);
            lemma_remove_first_contains(c.speakers, n, n);
            assert(departed(c2, n) == c);
            assert(chs.update(idx, c) =~= chs);
            lemma_remove_pushed(u.channels, name);
            let j = join_one((chs, u, out), name, params);
            assert(j.0 == chs2);
            assert(j.1.channels == u.channels.push(name));
            assert(chs2[idx].users.contains(j.1.nickname));
            let p = part_one(j, name);
            assert(p.0 == crate::channel_msgs::after_leave(chs2, idx, n));
            assert(departed(chs2[idx], n).users.len() > 0);
            assert(p.0 == chs2.update(idx, c));
            assert(chs2.update(idx, c) =~= chs);
            assert(p.1.channels == u.channels);
        } else {
            let j = join_one((chs, u, out), name, params);
            assert(j.0 == chs);
            assert(j.1 == u);
        }
    } else if crate::channel::valid_channel_name(name) {
        let c = new_channel_view(name, n);
        let chs2 = chs.push(c);
        lemma_channel_index(chs2, name, chs.len() as int);
        assert(c.users.contains(n)) by { assert(c.users[0] == n); }
        assert(departed(c, n).users =~= Seq::<Seq<char>>::empty()) by {
            assert(c.users[0] == n);
            assert(c.users.drop_first() =~= Seq::<Seq<char>>::empty());
        }
        assert(chs2.remove(chs.len() as int) =~= chs);
        lemma_remove_pushed(u.channels, name);
        let j = join_one((chs, u, out), name, params);
        assert(j.0 == chs2);
        assert(j.1.channels == u.channels.push(name));
        let p = part_one(j, name);
        assert(p.0 == chs);
        assert(p.1.channels == u.channels);
    }
}


/// Admitting a user keeps a channel well formed.
pub proof fn lemma_admit_keeps_wf(c: ChannelView, nick: Seq<char>)
    requires
        channel_wf(c),
    ensures
        channel_wf(admitted(c, nick)),
{
    assert forall|x: Seq<char>| c.admins.contains(x) implies #[trigger] add_once(c.users, nick).contains(x) by {
        lemma_add_once_contains(c.users, nick, x);
    }
    assert forall|x: Seq<char>| c.speakers.contains(x) implies #[trigger] add_once(c.users, nick).contains(x) by {
        lemma_add_once_contains(c.users, nick, x);
    }
    lemma_add_once_contains(c.users, nick, nick);
}

/// A member leaving (with its operator rights and voice) keeps a channel well
/// formed.
pub proof fn lemma_depart_keeps_wf(c: ChannelView, nick: Seq<char>)
    requires
        channel_wf(c),
    ensures
        channel_wf(departed(c, nick)),
{
    let d = departed(c, nick);
    lemma_remove_first_contains(c.users, nick, nick);
    lemma_remove_first_contains(c.admins, nick, nick);
    lemma_remove_first_contains(c.speakers, nick, nick);
    assert forall|x: Seq<char>| d.admins.contains(x) implies #[trigger] d.users.contains(x) by {
        lemma_remove_first_contains(c.admins, nick, x);
        lemma_remove_first_contains(c.users, nick, x);
    }
    assert forall|x: Seq<char>| d.speakers.contains(x) implies #[trigger] d.users.contains(x) by {
        lemma_remove_first_contains(c.speakers, nick, x);
        lemma_remove_first_contains(c.users, nick, x);
    }
}

/// A channel just created by its first member is well formed.
pub proof fn lemma_new_channel_wf(name: Seq<char>, nick: Seq<char>)
    ensures
        channel_wf(new_channel_view(name, nick)),
{
    let c = new_channel_view(name, nick);
    assert forall|x: Seq<char>| c.admins.contains(x) implies #[trigger] c.users.contains(x) by {
        let k = choose|k: int| 0 <= k < c.admins.len() && c.admins[k] == x;
        assert(c.users[0] == x);
    }
}


proof fn lemma_split_from_no_sep(s: Seq<char>, c: char, k: int, cur: Seq<char>, acc: Seq<Seq<char>>)
    requires
        0 <= k <= s.len(),
        forall|j: int| k <= j < s.len() ==> s[j] != c,
    ensures
        split_from(s, c, k, cur, acc) == acc.push(cur + s.subrange(k, s.len() as int)),
    decreases s.len() - k,
{
    if k == s.len() {
        assert(cur + s.subrange(k, k) =~= cur);
    } else {
        lemma_split_from_no_sep(s, c, k + 1, cur.push(s[k]), acc);
        assert(cur.push(s[k]) + s.subrange(k + 1, s.len() as int) =~= cur + s.subrange(k, s.len() as int));
    }
}

/// A text without the separator splits into itself alone.
pub proof fn lemma_split_no_sep(s: Seq<char>, c: char)
    requires
        !s.contains(c),
    ensures
        split_spec(s, c) == seq![s],
{
    assert forall|j: int| 0 <= j < s.len() implies s[j] != c by {
        if s[j] == c { assert(s.contains(c)); }
    }
    lemma_split_from_no_sep(s, c, 0, Seq::empty(), Seq::empty());
    assert(Seq::<char>::empty() + s.subrange(0, s.len() as int) =~= s);
    assert(Seq::<Seq<char>>::empty().push(s) =~= seq![s]);
}

/// `JOIN X` followed by `PART X`, as the commands state them, gives back the
/// channel list and the user as they were, for a single channel name `X`
/// (one without commas), a user that was neither a member of `X` nor had it
/// among its channels, and a channel `X` that, if it exists, is well formed and
/// has members.
pub proof fn lemma_join_command_then_part_command(chs: Seq<ChannelView>, u: UserView, x: Seq<char>, params: Seq<Seq<char>>)
    requires
        !x.contains(','),
        !u.channels.contains(x),
        channel_index(chs, x) >= 0 ==> ({
            let c = chs[channel_index(chs, x)];
            !c.users.contains(u.nickname) && channel_wf(c) && c.users.len() > 0
        }),
    ensures
        ({
            let j = join_all((chs, u, Seq::empty()), split_spec(x, ','), params);
            let p = part_all((j.0, j.1, Seq::empty()), split_spec(x, ','));
            p.0 == chs && p.1 == u
        }),
{
    lemma_split_no_sep(x, ',');
    let names = seq![x];
    assert(names.drop_last() =~= Seq::<Seq<char>>::empty());
    assert(names.last() == x);
    assert(join_all((chs, u, Seq::empty()), names.drop_last(), params) == (chs, u, Seq::<MessageView>::empty()));
    let j = join_all((chs, u, Seq::empty()), names, params);
    assert(j == join_one((chs, u, Seq::empty()), x, params));
    assert(part_all((j.0, j.1, Seq::<MessageView>::empty()), names.drop_last()) == (j.0, j.1, Seq::<MessageView>::empty()));
    let p = part_all((j.0, j.1, Seq::empty()), names);
    assert(p == part_one((j.0, j.1, Seq::empty()), x));
    lemma_join_part_restores(chs, u, x, params, Seq::empty());
    assert(part_one((j.0, j.1, Seq::empty()), x).0 == part_one(j, x).0);
    assert(part_one((j.0, j.1, Seq::empty()), x).1 == part_one(j, x).1);
}

/// A PRIVMSG from `a` to a local user `b` reaches `b`, and when `b` is away its
/// automatic answer goes back to `a` as the only reply.
pub proof fn lemma_private_message_to_local_user(
    chs: Seq<ChannelView>,
    us: Seq<UserView>,
    m: MessageView,
    node: Server,
    a: Seq<char>,
    b: Seq<char>,
)
    requires
        m.prefix == Some(a),
        m.parameters.len() == 2,
        m.parameters[0] == b,
        m.parameters[1].len() > 0,
        b.len() > 0,
        b[0] != '#' && b[0] != '&',
        !b.contains(','),
        user_index(us, b) >= 0,
        us[user_index(us, b)].local,
    ensures
        priv_spec(chs, us, m, a, node) == (
            seq![DeliveryView { to_peer: false, target: b, message: m }],
            match us[user_index(us, b)].away_message {
                Some(aw) => seq![autoreply_v(b, a, aw)],
                None => Seq::<MessageView>::empty(),
            },
        ),
{
    crate::channel_msgs::lemma_user_index_found(us, b);
    lemma_split_no_sep(b, ',');
    let names = seq![b];
    assert(names.drop_last() =~= Seq::<Seq<char>>::empty());
    let st0 = (Seq::<DeliveryView>::empty(), Seq::<MessageView>::empty());
    assert(to_targets(st0, names.drop_last(), chs, us, m, a, a, node, true) == st0);
    assert(names.last() == b);
    assert(to_targets(st0, names, chs, us, m, a, a, node, true) == to_target(st0, b, chs, us, m, a, a, node, true));
    let d = deliver_spec(us[user_index(us, b)], m, a, node, true);
    assert(st0.0 + d.0 =~= d.0);
    assert(st0.1 + d.1 =~= d.1);
}

/// A PRIVMSG from `a` to a user `b` of another server goes, as it is, to the
/// first peer that leads to `b`'s server, and nothing is replied.
pub proof fn lemma_private_message_to_remote_user(
    chs: Seq<ChannelView>,
    us: Seq<UserView>,
    m: MessageView,
    node: Server,
    a: Seq<char>,
    b: Seq<char>,
)
    requires
        m.prefix == Some(a),
        m.parameters.len() == 2,
        m.parameters[0] == b,
        m.parameters[1].len() > 0,
        b.len() > 0,
        b[0] != '#' && b[0] != '&',
        !b.contains(','),
        user_index(us, b) >= 0,
        !us[user_index(us, b)].local,
        route_from(node, 0, us[user_index(us, b)].server) >= 0,
    ensures
        priv_spec(chs, us, m, a, node) == (
            seq![DeliveryView {
                to_peer: true,
                target: node.connected_servers@[route_from(node, 0, us[user_index(us, b)].server)].name@,
                message: m,
            }],
            Seq::<MessageView>::empty(),
        ),
{
    crate::channel_msgs::lemma_user_index_found(us, b);
    lemma_split_no_sep(b, ',');
    let names = seq![b];
    assert(names.drop_last() =~= Seq::<Seq<char>>::empty());
    let st0 = (Seq::<DeliveryView>::empty(), Seq::<MessageView>::empty());
    assert(to_targets(st0, names.drop_last(), chs, us, m, a, a, node, true) == st0);
    assert(names.last() == b);
    assert(to_targets(st0, names, chs, us, m, a, a, node, true) == to_target(st0, b, chs, us, m, a, a, node, true));
    let d = deliver_spec(us[user_index(us, b)], m, a, node, true);
    assert(st0.0 + d.0 =~= d.0);
    assert(st0.1 + d.1 =~= d.1);
}

} // verus!
