use irc_server::channel::Channel;
use irc_server::channel_msgs::kick_msg;
use irc_server::commands::{away_msg, nick_msg, oper_msg};
use irc_server::message::Message;
use irc_server::user::User;

#[test]
fn test_set_away_message() {
    let msg = Message::from(":leo AWAY :me fui al kiosco".to_string());
    let mut user = User::new(true);
    user.nickname = "leo".to_string();
    let mut users = vec![user];

    let result = away_msg(msg, &mut users);

    assert!(result.is_ok());
    let vector = result.unwrap();
    assert_eq!((&vector).len(), 1);
    let message = String::from(vector[0].clone());
    assert_eq!(message, "306 :You have been marked as being away".to_string());
    assert_eq!(users[0].away_message, Some("me fui al kiosco".to_string()));
}

#[test]
fn test_unset_away_message() {
    let msg = Message::from(":leo AWAY".to_string());
    let mut user = User::new(true);
    user.nickname = "leo".to_string();
    let mut users = vec![user];

    let result = away_msg(msg, &mut users);

    assert!(result.is_ok());
    let vector = result.unwrap();
    assert_eq!((&vector).len(), 1);
    let message = String::from(vector[0].clone());
    assert_eq!(message, "305 :You are no longer marked as being away".to_string());
}

#[test]
fn test_cannot_set_away_message_if_nickname_is_not_found() {
    let msg = Message::from(":leo AWAY".to_string());
    let user = User::new(true);
    let mut users = vec![user];

    let result = away_msg(msg, &mut users);

    assert!(result.is_err());
    let error = result.unwrap_err();
    assert_eq!(error.msg, "Unknown user".to_string());
}

#[test]
fn test_change_nick_successfull() {
    let mut user = User::new(true);
    user.nickname = "nick1".to_string();
    let mut nickname = user.nickname.clone();
    let mut users = vec![user];
    let msg = Message::from("NICK nick2".to_string());
    let _ = nick_msg(msg, &mut users, &mut nickname);
    let found_nickname = users
        .iter()
        .find(|x| x.nickname == "nick2".to_string())
        .map(|u| u.nickname.clone())
        .unwrap_or_default();
    assert_eq!(found_nickname, "nick2".to_string());
    assert_eq!(nickname, "nick2".to_string());
}

#[test]
fn test_repeated_nick() {
    let mut user = User::new(true);
    user.nickname = "nick1".to_string();
    let mut nickname = user.nickname.clone();
    let mut user2 = User::new(true);
    user2.nickname = "nick2".to_string();
    let mut users = vec![user, user2];
    let msg = Message::from("NICK nick2".to_string());
    let result = nick_msg(msg, &mut users, &mut nickname).unwrap();
    let found = users.iter().any(|x| x.nickname == "nick1".to_string());
    let found_nickname = if found { "cant change".to_string() } else { String::new() };
    assert_eq!(found_nickname, "cant change".to_string());
    assert_eq!(result[0].command, "433");
}

#[test]
fn test_make_oper() {
    let mut user = User::new(true);
    user.nickname = "nick1".to_string();
    user.password = "1234".to_string();
    user.username = "admin".to_string();
    let nickname = user.nickname.clone();
    let mut users = vec![user];
    let msg = Message::from("OPER admin 1234".to_string());
    let result = oper_msg(msg, &mut users, &nickname).unwrap();
    let is_oper = users
        .iter()
        .find(|x| x.nickname == "nick1".to_string())
        .map(|u| u.is_admin)
        .unwrap_or(false);
    assert_eq!(is_oper, true);
    assert_eq!(result[0].command, "381");
}

#[test]
fn test_cant_make_oper_wrong_pass() {
    let mut user = User::new(true);
    user.nickname = "nick1".to_string();
    user.password = "password1".to_string();
    user.username = "user1".to_string();
    let nickname = user.nickname.clone();
    let mut users = vec![user];
    let msg = Message::from("OPER incorrect_password user1".to_string());
    let result = oper_msg(msg, &mut users, &nickname).unwrap();
    let is_oper = users
        .iter()
        .find(|x| x.nickname == "nick1".to_string())
        .map(|u| u.is_admin)
        .unwrap_or(false);
    assert_eq!(is_oper, false);
    assert_eq!(result[0].command, "491");
}

#[test]
fn test_kick_user_successfully() {
    let mut user = User::new(true);
    user.nickname = "nick_oper".to_string();
    user.password = "password1".to_string();
    user.username = "user1".to_string();
    user.is_admin = true;
    let kicked_user = "kicked_nick".to_string();
    let nickname = user.nickname.clone();
    let mut channel = Channel::new(&"#canal1".to_string());
    channel.add_admin(user.nickname.clone());
    channel.add_user(kicked_user.clone());
    let mut channels = vec![channel];
    let mut users = vec![user];
    let msg = Message::from("KICK #canal1 kicked_nick".to_string());

    let _ = kick_msg(msg, &mut users, &mut channels, &nickname);
    let canal_server = channels
        .iter()
        .find(|canal| canal.name == "#canal1".to_string())
        .unwrap();
    assert_eq!(canal_server.has_user(&kicked_user), false);
}

#[test]
fn test_does_not_kick_not_oper() {
    let mut user = User::new(true);
    user.nickname = "nick_oper".to_string();
    user.password = "password1".to_string();
    user.username = "user1".to_string();
    user.is_admin = true;
    let kicked_user = "kicked_nick".to_string();
    let nickname = user.nickname.clone();
    let mut channel = Channel::new(&"#canal1".to_string());
    channel.add_user(user.nickname.clone());
    channel.add_user(kicked_user.clone());
    let mut channels = vec![channel];
    let mut users = vec![user];
    let msg = Message::from("KICK #canal1 kicked_nick".to_string());

    let result = kick_msg(msg, &mut users, &mut channels, &nickname).unwrap();
    let canal_server = channels
        .iter()
        .find(|canal| canal.name == "#canal1".to_string())
        .unwrap();
    assert_eq!(canal_server.has_user(&kicked_user), true);
    assert_eq!(result[0].command, "482");
}
