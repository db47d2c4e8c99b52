use vstd::prelude::*;
use crate::user::User;
use crate::channel::Channel;

verus! {

/// No two users of the directory share a nickname.
pub open spec fn unique_nicks(users: Seq<User>) -> bool {
    forall|i: int, j: int| 0 <= i < users.len() && 0 <= j < users.len() && i != j
        ==> users[i].nickname@ != users[j].nickname@
}

/// Changing users without changing any nickname keeps nicknames unique.
pub proof fn lemma_same_nicks(before: Seq<User>, after: Seq<User>)
    requires
        before.len() == after.len(),
        forall|i: int| 0 <= i < after.len() ==> #[trigger] after[i].nickname@ == before[i].nickname@,
    ensures
        unique_nicks(before) ==> unique_nicks(after),
{
    if unique_nicks(before) {
        assert forall|i: int, j: int| 0 <= i < after.len() && 0 <= j < after.len() && i != j
            implies after[i].nickname@ != after[j].nickname@ by {
            assert(after[i].nickname@ == before[i].nickname@);
            assert(after[j].nickname@ == before[j].nickname@);
        }
    }
}

/// Whether some user of the directory has that nickname.
pub open spec fn has_nick(users: Seq<User>, nick: Seq<char>) -> bool {
    exists|i: int| 0 <= i < users.len() && users[i].nickname@ == nick
}

/// Whether some channel of the list has that name.
pub open spec fn has_channel(channels: Seq<Channel>, name: Seq<char>) -> bool {
    exists|i: int| 0 <= i < channels.len() && channels[i].name@ == name
}

/// The position of the first user with that nickname.
pub fn find_user(users: &Vec<User>, nick: &String) -> (r: Option<usize>)
    ensures
        match r {
            Some(i) => i < users@.len() && users@[i as int].nickname@ == nick@
                && forall|j: int| 0 <= j < i ==> users@[j].nickname@ != nick@,
            None => !has_nick(users@, nick@),
        },
{
    let mut i: usize = 0;
    while i < users.len()
        invariant
            i <= users@.len(),
            forall|j: int| 0 <= j < i ==> users@[j].nickname@ != nick@,
        decreases users@.len() - i,
    {
        if users[i].nickname == *nick {
            return Some(i);
        }
        i = i + 1;
    }
    None
}

/// The position of the first channel with that name.
pub fn find_channel(channels: &Vec<Channel>, name: &String) -> (r: Option<usize>)
    ensures
        match r {
            Some(i) => i < channels@.len() && channels@[i as int].name@ == name@
                && forall|j: int| 0 <= j < i ==> channels@[j].name@ != name@,
            None => !has_channel(channels@, name@),
        },
{
    let mut i: usize = 0;
    while i < channels.len()
        invariant
            i <= channels@.len(),
            forall|j: int| 0 <= j < i ==> channels@[j].name@ != name@,
        decreases channels@.len() - i,
    {
        if channels[i].name == *name {
            return Some(i);
        }
        i = i + 1;
    }
    None
}

/// The nicknames of the directory, each followed by a space.
pub open spec fn nick_list_spec(users: Seq<User>) -> Seq<char>
    decreases users.len(),
{
    if users.len() == 0 {
        Seq::empty()
    } else {
        nick_list_spec(users.drop_last()) + users.last().nickname@ + seq![' ']
    }
}

/// The nicknames of the directory, each followed by a space, as pushed to
/// clients with `UPDATE_SERVER_USERS`.
pub fn nick_list(users: &Vec<User>) -> (r: String)
    ensures
        r@ == nick_list_spec(users@),
{
    let mut list = String::new();
    let mut i: usize = 0;
    while i < users.len()
        invariant
            i <= users@.len(),
            list@ == nick_list_spec(users@.take(i as int)),
        decreases users@.len() - i,
    {
        let ghost before = list@;
        list.append(users[i].nickname.as_str());
        crate::text::push_char(&mut list, ' ');
        assert(users@.take(i + 1).drop_last() =~= users@.take(i as int));
        assert(list@ =~= before + users@[i as int].nickname@ + seq![' ']);
        i = i + 1;
    }
    assert(users@.take(users@.len() as int) =~= users@);
    list
}

/// Adds a newly registered user to the directory unless its nickname is taken;
/// returns whether it was added.
pub fn add_user_to_net(users: &mut Vec<User>, user: User) -> (r: bool)
    ensures
        r == !has_nick(old(users)@, user.nickname@),
        r ==> final(users)@ == old(users)@.push(user),
        !r ==> final(users)@ == old(users)@,
        unique_nicks(old(users)@) ==> unique_nicks(final(users)@),
{
    match find_user(users, &user.nickname) {
        Some(_) => false,
        None => {
            users.push(user);
            true
        },
    }
}

} // verus!
