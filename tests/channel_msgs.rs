use irc_server::channel::Channel;
use irc_server::channel_msgs::{
    invite_msg, join_msg, list_msg, mode_msg, names_msg, part_msg, topic_msg,
};
use irc_server::message::Message;
use irc_server::user::User;

#[test]
fn test_join_con_nombre_valido_crea_canal() {
    let mut user = User::new(true);
    user.nickname = "nick1".to_string();
    let mut users = vec![user];
    let mut channels = Vec::new();
    let msg = Message::from("JOIN #canal1".to_string());
    let result = join_msg(
        msg,
        "nick1".to_string(),
        &mut users,
        &mut channels, &mut Vec::new())
    .unwrap();
    assert_eq!(result.len(), 3);
    assert_eq!(result[0].command, "332");
    assert_eq!(result[1].command, "353");
    assert_eq!(result[2].command, "366");
}

#[test]
fn test_join_con_nombre_invalido_devuelve_no_such_channel() {
    let mut user = User::new(true);
    user.nickname = "nick1".to_string();
    let mut users = vec![user];
    let mut channels = Vec::new();
    let msg = Message::from("JOIN canal1".to_string());
    let result = join_msg(
        msg,
        "nick1".to_string(),
        &mut users,
        &mut channels, &mut Vec::new())
    .unwrap();
    assert_eq!(result.len(), 1);
    assert_eq!(result[0].command, "403");
}
#[test]
fn test_tres_joins_validos_genera_resultado_correcto() {
    let mut user = User::new(true);
    user.nickname = "nick1".to_string();
    let mut users = vec![user];
    let mut channels = Vec::new();
    let msg = Message::from("JOIN #canal1,#canal2,#canal3".to_string());
    let result = join_msg(
        msg,
        "nick1".to_string(),
        &mut users,
        &mut channels, &mut Vec::new())
    .unwrap();
    assert_eq!(result.len(), 9);
    assert_eq!(result[0].command, "332");
    assert_eq!(result[1].command, "353");
    assert_eq!(result[2].command, "366");
    assert_eq!(result[3].command, "332");
    assert_eq!(result[4].command, "353");
    assert_eq!(result[5].command, "366");
    assert_eq!(result[6].command, "332");
    assert_eq!(result[7].command, "353");
    assert_eq!(result[8].command, "366");
}
#[test]
fn test_part_con_nombre_valido_y_usuario_en_canal_lo_expulsa_del_canal() {
    let mut user = User::new(true);
    user.nickname = "nick1".to_string();
    let mut channel = Channel::new(&"#canal1".to_string());
    channel.add_user("nick1".to_string());
    user.add_channel(&"#canal1".to_string());
    let mut users = vec![user];
    let mut channels = vec![channel];
    let msg_part = Message::from("PART #canal1".to_string());
    let result = part_msg(
        msg_part,
        "nick1".to_string(),
        &mut users,
        &mut channels,
    )
    .unwrap();
    assert_eq!(result.len(), 0);
}
#[test]
fn test_part_con_parametros_insuficientes_devuelve_need_more_params() {
    let mut user = User::new(true);
    user.nickname = "nick1".to_string();
    let mut channel = Channel::new(&"#canal1".to_string());
    channel.add_user("nick1".to_string());
    user.add_channel(&"#canal1".to_string());
    let mut users = vec![user];
    let mut channels = vec![channel];
    let msg_part = Message::from("PART".to_string());
    let result = part_msg(
        msg_part,
        "nick1".to_string(),
        &mut users,
        &mut channels,
    )
    .unwrap();
    assert_eq!(result.len(), 1);
    assert_eq!(result[0].command, "461");
}

#[test]
fn test_part_con_canal_no_existente_devuelve_no_such_channel() {
    let mut user = User::new(true);
    user.nickname = "nick1".to_string();
    let mut users = vec![user];
    let mut channels = Vec::new();
    let msg_part = Message::from("PART #canal2".to_string());
    let result = part_msg(
        msg_part,
        "nick1".to_string(),
        &mut users,
        &mut channels,
    )
    .unwrap();
    assert_eq!(result.len(), 1);
    assert_eq!(result[0].command, "403");
}

#[test]
fn test_part_con_usuario_no_esta_en_ese_canal_devuelve_no_on_channel() {
    let mut user = User::new(true);
    user.nickname = "nick1".to_string();
    let channel = Channel::new(&"#canal2".to_string());
    let mut users = vec![user];
    let mut channels = vec![channel];
    let msg_part = Message::from("PART #canal2".to_string());
    let result = part_msg(
        msg_part,
        "nick1".to_string(),
        &mut users,
        &mut channels,
    )
    .unwrap();
    assert_eq!(result.len(), 1);
    assert_eq!(result[0].command, "442");
}
#[test]
fn test_names_de_un_canal_devuelve_usuarios_del_canal() {
    let mut user = User::new(true);
    user.nickname = "nick1".to_string();
    let mut user2 = User::new(true);
    user2.nickname = "nick2".to_string();
    let mut user3 = User::new(true);
    user3.nickname = "nick3".to_string();
    let mut user4 = User::new(true);
    user4.nickname = "nick4".to_string();
    let mut users = vec![user, user2, user3, user4];
    let mut channel = Channel::new(&"#canal1".to_string());
    channel.add_user("nick1".to_string());
    channel.add_user("nick2".to_string());
    channel.add_user("nick3".to_string());
    channel.add_user("nick4".to_string());

    let mut channels = vec![channel];
    let msg_names = Message::from("NAMES #canal1".to_string());
    let result = names_msg(
        msg_names,
        &users,
        "nick1".to_string(),
        &channels,
    )
    .unwrap();
    assert_eq!(result.len(), 2);
    assert_eq!(result[0].command, "353");
    assert_eq!(
        result[0].parameters,
        vec!["#canal1", " nick1 nick2 nick3 nick4"]
    );
    assert_eq!(result[1].command, "366");
}
#[test]
fn test_names_de_dos_canales_devuelve_usuarios_de_canales() {
    let mut user = User::new(true);
    user.nickname = "nick1".to_string();
    let mut user2 = User::new(true);
    user2.nickname = "nick2".to_string();
    let mut user3 = User::new(true);
    user3.nickname = "nick3".to_string();
    let mut user4 = User::new(true);
    user4.nickname = "nick4".to_string();
    let mut users = vec![user, user2, user3, user4];
    let mut channel = Channel::new(&"#canal1".to_string());
    channel.add_user("nick1".to_string());
    channel.add_user("nick2".to_string());
    let mut channel2 = Channel::new(&"#canal2".to_string());
    channel2.add_user("nick1".to_string());
    channel2.add_user("nick3".to_string());
    channel2.add_user("nick4".to_string());

    let mut channels = vec![channel, channel2];
    let msg_names = Message::from("NAMES #canal1,#canal2".to_string());
    let result = names_msg(
        msg_names,
        &users,
        "nick1".to_string(),
        &channels,
    )
    .unwrap();
    assert_eq!(result.len(), 4);
    assert_eq!(result[0].command, "353");
    assert_eq!(result[0].parameters, vec!["#canal1", " nick1 nick2"]);
    assert_eq!(result[1].command, "366");
    assert_eq!(result[2].command, "353");
    assert_eq!(result[2].parameters, vec!["#canal2", " nick1 nick3 nick4"]);
    assert_eq!(result[3].command, "366");
}
#[test]
fn test_names_sin_parametros_devuelve_usuarios_de_canales() {
    let mut user = User::new(true);
    user.nickname = "nick1".to_string();
    let mut user2 = User::new(true);
    user2.nickname = "nick2".to_string();
    let mut user3 = User::new(true);
    user3.nickname = "nick3".to_string();
    let mut user4 = User::new(true);
    user4.nickname = "nick4".to_string();
    let mut channel = Channel::new(&"#canal1".to_string());
    channel.add_user("nick1".to_string());
    user.add_channel(&"#canal1".to_string());
    channel.add_user("nick2".to_string());
    user2.add_channel(&"#canal1".to_string());
    let mut channel2 = Channel::new(&"#canal2".to_string());
    channel2.add_user("nick1".to_string());
    user.add_channel(&"#canal2".to_string());
    channel2.add_user("nick3".to_string());
    user3.add_channel(&"#canal2".to_string());
    channel2.add_user("nick4".to_string());
    user4.add_channel(&"#canal2".to_string());

    let mut users = vec![user, user2, user3, user4];

    let mut channels = vec![channel, channel2];

    let msg_names = Message::from("NAMES".to_string());
    let result = names_msg(
        msg_names,
        &users,
        "nick1".to_string(),
        &channels,
    )
    .unwrap();
    assert_eq!(result.len(), 4);
    assert_eq!(result[0].command, "353");
    assert_eq!(result[0].parameters, vec!["#canal1", " nick1 nick2"]);
    assert_eq!(result[1].command, "366");
    assert_eq!(result[2].command, "353");
    assert_eq!(result[2].parameters, vec!["#canal2", " nick1 nick3 nick4"]);
    assert_eq!(result[3].command, "366");
}
#[test]
fn test_names_sin_parametros_y_usuario_sin_canal_devuelve_usuarios_de_canales_y_usuario_sin_canal(
) {
    let mut user = User::new(true);
    user.nickname = "nick1".to_string();
    let mut user2 = User::new(true);
    user2.nickname = "nick2".to_string();
    let mut user3 = User::new(true);
    user3.nickname = "nick3".to_string();
    let mut user4 = User::new(true);
    user4.nickname = "nick4".to_string();
    let mut user5 = User::new(true);
    user5.nickname = "nick5".to_string();
    let mut channel = Channel::new(&"#canal1".to_string());
    channel.add_user("nick1".to_string());
    user.add_channel(&"#canal1".to_string());
    channel.add_user("nick2".to_string());
    user2.add_channel(&"#canal1".to_string());
    let mut channel2 = Channel::new(&"#canal2".to_string());
    channel2.add_user("nick1".to_string());
    user.add_channel(&"#canal2".to_string());
    channel2.add_user("nick3".to_string());
    user3.add_channel(&"#canal2".to_string());
    channel2.add_user("nick4".to_string());
    user4.add_channel(&"#canal2".to_string());
    let mut users = vec![user, user2, user3, user4, user5];
    let mut channels = vec![channel, channel2];
    let msg_names = Message::from("NAMES".to_string());
    let result = names_msg(
        msg_names,
        &users,
        "nick1".to_string(),
        &channels,
    )
    .unwrap();
    assert_eq!(result.len(), 6);
    assert_eq!(result[0].command, "353");
    assert_eq!(result[0].parameters, vec!["#canal1", " nick1 nick2"]);
    assert_eq!(result[1].command, "366");
    assert_eq!(result[2].command, "353");
    assert_eq!(result[2].parameters, vec!["#canal2", " nick1 nick3 nick4"]);
    assert_eq!(result[3].command, "366");
    assert_eq!(result[4].command, "353");
    assert_eq!(result[4].parameters, vec!["*", " nick5"]);
}
#[test]
fn test_invite_de_un_canal_devuelve_rpl_inviting() {
    let mut user = User::new(true);
    user.nickname = "nick1".to_string();
    let mut user2 = User::new(true);
    user2.nickname = "nick2".to_string();
    let mut channel = Channel::new(&"#canal1".to_string());
    channel.add_user("nick1".to_string());
    user.add_channel(&"canal1".to_string());
    let mut users = vec![user, user2];
    let mut channels = vec![channel];
    let msg_invite = Message::from("INVITE nick2 #canal1".to_string());
    let result = invite_msg(
        msg_invite,
        &mut users,
        "nick1".to_string(),
        &mut channels,
    )
    .unwrap();
    assert_eq!(result.len(), 1);
    assert_eq!(result[0].command, "341");
}
#[test]
fn test_invite_con_parametros_insuficientes_devuelve_need_more_params() {
    let mut user = User::new(true);
    user.nickname = "nick1".to_string();
    let mut user2 = User::new(true);
    user2.nickname = "nick2".to_string();
    let mut users = vec![user, user2];
    let mut channels = Vec::new();
    let msg = Message::from("JOIN #canal1".to_string());
    let _ = join_msg(
        msg,
        "nick1".to_string(),
        &mut users,
        &mut channels, &mut Vec::new())
    .unwrap();
    let msg_invite = Message::from("INVITE nick2".to_string());
    let result = invite_msg(
        msg_invite,
        &mut users,
        "nick1".to_string(),
        &mut channels,
    )
    .unwrap();
    assert_eq!(result.len(), 1);
    assert_eq!(result[0].command, "461");
}
#[test]
fn test_invite_con_nick_inexsitente_devuelve_no_such_nick() {
    let mut user = User::new(true);
    user.nickname = "nick1".to_string();
    let mut user2 = User::new(true);
    user2.nickname = "nick2".to_string();
    let mut channel = Channel::new(&"#canal1".to_string());
    channel.add_user("nick1".to_string());
    user.add_channel(&"#canal1".to_string());
    let mut users = vec![user, user2];
    let mut channels = vec![channel];
    let msg_invite = Message::from("INVITE nick3 #canal1".to_string());
    let result = invite_msg(
        msg_invite,
        &mut users,
        "nick1".to_string(),
        &mut channels,
    )
    .unwrap();
    assert_eq!(result.len(), 1);
    assert_eq!(result[0].command, "401");
}
#[test]
fn test_invite_a_canal_invite_only_sin_permiso_devuelve_chan_opriv() {
    let mut user = User::new(true);
    user.nickname = "nick1".to_string();
    let mut user2 = User::new(true);
    user2.nickname = "nick2".to_string();
    let mut channel = Channel::new(&"#canal1".to_string());
    channel.add_user("nick1".to_string());
    user.add_channel(&"canal1".to_string());
    channel.mode.activate_i();
    let mut users = vec![user, user2];
    let mut channels = vec![channel];
    let msg_invite = Message::from("INVITE nick2 #canal1".to_string());
    let result = invite_msg(
        msg_invite,
        &mut users,
        "nick1".to_string(),
        &mut channels,
    )
    .unwrap();
    assert_eq!(result.len(), 1);
    assert_eq!(result[0].command, "482");
}
#[test]
fn test_invite_a_canal_invite_only_con_permiso_devuelve_rpl_inviting() {
    let mut user = User::new(true);
    user.nickname = "nick1".to_string();
    let mut user2 = User::new(true);
    user2.nickname = "nick2".to_string();
    let mut channel = Channel::new(&"#canal1".to_string());
    channel.add_user("nick1".to_string());
    user.add_channel(&"canal1".to_string());
    channel.mode.activate_i();
    channel.add_admin("nick1".to_string());
    let mut users = vec![user, user2];
    let mut channels = vec![channel];
    let msg_invite = Message::from("INVITE nick2 #canal1".to_string());
    let result = invite_msg(
        msg_invite,
        &mut users,
        "nick1".to_string(),
        &mut channels,
    )
    .unwrap();
    assert_eq!(result.len(), 1);
    assert_eq!(result[0].command, "341");
}
#[test]
fn test_list_de_un_canal_devuelve_rpl_list() {
    let mut user = User::new(true);
    user.nickname = "nick1".to_string();
    let mut users = vec![user];
    let mut channel = Channel::new(&"#canal1".to_string());
    channel.topic = Some("my topic".to_string());
    let mut channels = vec![channel];
    let msg = Message::from("LIST #canal1".to_string());
    let result = list_msg(msg, "nick1".to_string(), &users, &channels).unwrap();
    assert_eq!(result.len(), 3);
    assert_eq!(result[0].command, "321");
    assert_eq!(result[1].command, "322");
    assert_eq!(result[1].parameters, vec!["#canal1", "#", "my topic"]);
    assert_eq!(result[2].command, "323");
}
#[test]
fn test_list_de_un_canal_privado_devuelve_rpl_list_sin_topic() {
    let mut user = User::new(true);
    user.nickname = "nick1".to_string();
    let mut users = vec![user];
    let mut channel = Channel::new(&"#canal1".to_string());
    channel.topic = Some("my topic".to_string());
    channel.mode.activate_p();
    let mut channels = vec![channel];
    let msg = Message::from("LIST #canal1".to_string());
    let result = list_msg(msg, "nick1".to_string(), &users, &channels).unwrap();
    assert_eq!(result.len(), 3);
    assert_eq!(result[0].command, "321");
    assert_eq!(result[1].command, "322");
    assert_eq!(result[1].parameters, vec!["#canal1", "#"]);
    assert_eq!(result[2].command, "323");
}
#[test]
fn test_list_de_un_canal_privado_con_usuario_en_canal_devuelve_rpl_list() {
    let mut user = User::new(true);
    user.nickname = "nick1".to_string();
    let mut users = vec![user];
    let mut channel = Channel::new(&"#canal1".to_string());
    channel.topic = Some("my topic".to_string());
    channel.mode.activate_p();
    let mut channels = vec![channel];
    let msg = Message::from("JOIN #canal1".to_string());
    let _ = join_msg(
        msg,
        "nick1".to_string(),
        &mut users,
        &mut channels, &mut Vec::new())
    .unwrap();
    let msg_list = Message::from("LIST #canal1".to_string());
    let result = list_msg(
        msg_list,
        "nick1".to_string(),
        &users,
        &channels,
    )
    .unwrap();
    assert_eq!(result.len(), 3);
    assert_eq!(result[0].command, "321");
    assert_eq!(result[1].command, "322");
    assert_eq!(result[1].parameters, vec!["#canal1", "#", "my topic"]);
    assert_eq!(result[2].command, "323");
}
#[test]
fn test_list_sin_parametro_devuelve_info_de_canales() {
    let mut user = User::new(true);
    user.nickname = "nick1".to_string();
    let mut users = vec![user];
    let mut channel = Channel::new(&"#canal1".to_string());
    channel.topic = Some("my topic".to_string());
    channel.mode.activate_p();
    let mut channel2 = Channel::new(&"#canal2".to_string());
    channel2.topic = Some("my topic2".to_string());
    let mut channel3 = Channel::new(&"#canal3".to_string());
    channel3.topic = Some("my topic3".to_string());
    let mut channels = vec![channel, channel2, channel3];
    let msg_list = Message::from("LIST".to_string());
    let result = list_msg(
        msg_list,
        "nick1".to_string(),
        &users,
        &channels,
    )
    .unwrap();
    assert_eq!(result.len(), 5);
    assert_eq!(result[0].command, "321");
    assert_eq!(result[1].command, "322");
    assert_eq!(result[1].parameters, vec!["#canal1", "#"]);
    assert_eq!(result[2].parameters, vec!["#canal2", "#", "my topic2"]);
    assert_eq!(result[3].parameters, vec!["#canal3", "#", "my topic3"]);
    assert_eq!(result[4].command, "323");
}
#[test]
fn test_topic_con_parametros_insuficientes_devuelve_need_more_params() {
    let mut channels = Vec::new();
    let msg = Message::from("TOPIC".to_string());
    let result = topic_msg(msg, "nick1".to_string(), &mut channels).unwrap();
    assert_eq!(result.len(), 1);
    assert_eq!(result[0].command, "461");
}
#[test]
fn test_topic_con_un_parametro_y_usuario_no_esta_en_canal_devuelve_not_on_channel() {
    let channel = Channel::new(&"#canal2".to_string());
    let mut channels = vec![channel];
    let msg = Message::from("TOPIC #canal2".to_string());
    let result = topic_msg(msg, "nick1".to_string(), &mut channels).unwrap();
    assert_eq!(result.len(), 1);
    assert_eq!(result[0].command, "442");
}
#[test]
fn test_topic_con_un_parametro_usuario_en_canal_y_sin_topic_devuelve_no_topic() {
    let mut user = User::new(true);
    user.nickname = "nick1".to_string();
    let mut users = vec![user];
    let mut channels = Vec::new();
    let msg = Message::from("JOIN #canal1".to_string());
    let _ = join_msg(
        msg,
        "nick1".to_string(),
        &mut users,
        &mut channels, &mut Vec::new())
    .unwrap();
    let msg_topic = Message::from("TOPIC #canal1".to_string());
    let result = topic_msg(msg_topic, "nick1".to_string(), &mut channels).unwrap();
    assert_eq!(result.len(), 1);
    assert_eq!(result[0].command, "331");
}
#[test]
fn test_topic_con_un_parametro_usuario_en_canal_y_topic_devuelve_topic() {
    let mut user = User::new(true);
    user.nickname = "nick1".to_string();
    let mut users = vec![user];
    let mut channel = Channel::new(&"#canal1".to_string());
    channel.topic = Some("my topic".to_string());
    let mut channels = vec![channel];
    let msg = Message::from("JOIN #canal1".to_string());
    let _ = join_msg(
        msg,
        "nick1".to_string(),
        &mut users,
        &mut channels, &mut Vec::new())
    .unwrap();
    let msg_topic = Message::from("TOPIC #canal1".to_string());
    let result = topic_msg(msg_topic, "nick1".to_string(), &mut channels).unwrap();
    assert_eq!(result.len(), 1);
    assert_eq!(result[0].command, "332");
    assert_eq!(result[0].parameters, ["#canal1", "my topic"]);
}
#[test]
fn test_topic_con_modo_canal_y_usuario_admin_cambia_topic() {
    let mut user = User::new(true);
    user.nickname = "nick1".to_string();
    let mut channel = Channel::new(&"#canal1".to_string());
    channel.mode.activate_t();
    channel.add_admin("nick1".to_string());
    let mut users = vec![user];
    let mut channels = vec![channel];
    let msg = Message::from("JOIN #canal1".to_string());
    let _ = join_msg(
        msg,
        "nick1".to_string(),
        &mut users,
        &mut channels, &mut Vec::new())
    .unwrap();
    let msg_topic = Message::from("TOPIC #canal1 :cambio el topic".to_string());
    let result = topic_msg(msg_topic, "nick1".to_string(), &mut channels).unwrap();
    assert_eq!(result.len(), 1);
    assert_eq!(result[0].command, "332");
    assert_eq!(result[0].parameters, ["#canal1", "cambio el topic"]);
}
#[test]
fn test_topic_con_modo_canal_y_usuario_no_admin_devuelve_chanopriv() {
    let mut user = User::new(true);
    user.nickname = "nick1".to_string();
    let mut channel = Channel::new(&"#canal1".to_string());
    channel.mode.activate_t();
    let mut users = vec![user];
    let mut channels = vec![channel];
    let msg = Message::from("JOIN #canal1".to_string());
    let _ = join_msg(
        msg,
        "nick1".to_string(),
        &mut users,
        &mut channels, &mut Vec::new())
    .unwrap();
    let msg_topic = Message::from("TOPIC #canal1 :cambio el topic".to_string());
    let result = topic_msg(msg_topic, "nick1".to_string(), &mut channels).unwrap();
    assert_eq!(result.len(), 1);
    assert_eq!(result[0].command, "482");
}
#[test]
fn test_topic_sin_modo_canal_y_usuario_admin_cambia_topic() {
    let mut user = User::new(true);
    user.nickname = "nick1".to_string();
    let mut channel = Channel::new(&"#canal1".to_string());
    channel.add_admin("nick1".to_string());
    let mut users = vec![user];
    let mut channels = vec![channel];
    let msg = Message::from("JOIN #canal1".to_string());
    let _ = join_msg(
        msg,
        "nick1".to_string(),
        &mut users,
        &mut channels, &mut Vec::new())
    .unwrap();
    let msg_topic = Message::from("TOPIC #canal1 :cambio el topic".to_string());
    let result = topic_msg(msg_topic, "nick1".to_string(), &mut channels).unwrap();
    assert_eq!(result.len(), 1);
    assert_eq!(result[0].command, "332");
    assert_eq!(result[0].parameters, ["#canal1", "cambio el topic"]);
}
#[test]
fn test_mode_o_sin_activate_flag_devuelve_unknown_mode() {
    let mut user = User::new(true);
    user.nickname = "nick1".to_string();
    let mut user2 = User::new(true);
    user2.nickname = "nick2".to_string();
    let mut channel = Channel::new(&"#canal1".to_string());
    channel.add_admin("nick1".to_string());
    let mut users = vec![user, user2];
    let mut channels = vec![channel];
    let msg = Message::from("JOIN #canal1".to_string());
    let _ = join_msg(
        msg,
        "nick1".to_string(),
        &mut users,
        &mut channels, &mut Vec::new())
    .unwrap();
    let msg_mode = Message::from("MODE #canal1 o nick2".to_string());
    let result = mode_msg(msg_mode, "nick1".to_string(), &mut channels).unwrap();
    assert_eq!(result.len(), 1);
    assert_eq!(result[0].command, "472");
}
#[test]
fn test_mode_o_sin_usuario_operador_devuelve_chanopriv() {
    let mut user = User::new(true);
    user.nickname = "nick1".to_string();
    let mut user2 = User::new(true);
    user2.nickname = "nick2".to_string();
    let channel = Channel::new(&"#canal1".to_string());
    let mut users = vec![user, user2];
    let mut channels = vec![channel];
    let msg = Message::from("JOIN #canal1".to_string());
    let _ = join_msg(
        msg,
        "nick1".to_string(),
        &mut users,
        &mut channels, &mut Vec::new())
    .unwrap();
    let msg_mode = Message::from("MODE #canal1 +o nick2".to_string());
    let result = mode_msg(msg_mode, "nick1".to_string(), &mut channels).unwrap();
    assert_eq!(result.len(), 1);
    assert_eq!(result[0].command, "482");
}

#[test]
fn test_mode_o_agrega_usuario_admin() {
    let mut user = User::new(true);
    user.nickname = "nick1".to_string();
    let mut user2 = User::new(true);
    user2.nickname = "nick2".to_string();
    let mut channel = Channel::new(&"#canal1".to_string());
    channel.add_admin("nick1".to_string());
    let mut users = vec![user, user2];
    let mut channels = vec![channel];
    let msg = Message::from("JOIN #canal1".to_string());
    let msg2 = Message::from("JOIN #canal1".to_string());

    let _ = join_msg(
        msg,
        "nick1".to_string(),
        &mut users,
        &mut channels, &mut Vec::new())
    .unwrap();
    let _ = join_msg(
        msg2,
        "nick2".to_string(),
        &mut users,
        &mut channels, &mut Vec::new())
    .unwrap();
    let msg_mode = Message::from("MODE #canal1 +o nick2".to_string());
    let result = mode_msg(msg_mode, "nick1".to_string(), &mut channels).unwrap();
    assert_eq!(result.len(), 0);
    let mut lock_channel = channels;
    if let Some(channel) = lock_channel
        .iter_mut()
        .find(|channel| channel.name == "#canal1")
    {
        assert!(channel.is_admin(&"nick2".to_string()));
    }
}
#[test]
fn test_mode_de_o_elimina_usuario_admin() {
    let mut user = User::new(true);
    user.nickname = "nick1".to_string();
    let mut user2 = User::new(true);
    user2.nickname = "nick2".to_string();
    let mut channel = Channel::new(&"#canal1".to_string());
    channel.add_admin("nick1".to_string());
    channel.add_admin("nick2".to_string());
    assert!(channel.is_admin(&"nick2".to_string()));
    let mut users = vec![user, user2];
    let mut channels = vec![channel];
    let msg = Message::from("JOIN #canal1".to_string());
    let msg2 = Message::from("JOIN #canal1".to_string());
    let _ = join_msg(
        msg,
        "nick1".to_string(),
        &mut users,
        &mut channels, &mut Vec::new())
    .unwrap();
    let _ = join_msg(
        msg2,
        "nick2".to_string(),
        &mut users,
        &mut channels, &mut Vec::new())
    .unwrap();
    let msg_mode = Message::from("MODE #canal1 -o nick2".to_string());
    let result = mode_msg(msg_mode, "nick1".to_string(), &mut channels).unwrap();
    assert_eq!(result.len(), 0);
    let mut lock_channel = channels;
    if let Some(channel) = lock_channel
        .iter_mut()
        .find(|channel| channel.name == "#canal1")
    {
        assert!(!channel.is_admin(&"nick2".to_string()));
    }
}
#[test]
fn test_mode_o_sin_usuario_en_canal_devuelve_no_such_nick() {
    let mut user = User::new(true);
    user.nickname = "nick1".to_string();
    let mut user2 = User::new(true);
    user2.nickname = "nick2".to_string();
    let mut channel = Channel::new(&"#canal1".to_string());
    channel.add_admin("nick1".to_string());
    let mut users = vec![user, user2];
    let mut channels = vec![channel];
    let msg = Message::from("JOIN #canal1".to_string());
    let _ = join_msg(
        msg,
        "nick1".to_string(),
        &mut users,
        &mut channels, &mut Vec::new())
    .unwrap();
    let msg_mode = Message::from("MODE #canal1 +o nick2".to_string());
    let result = mode_msg(msg_mode, "nick1".to_string(), &mut channels).unwrap();
    assert_eq!(result.len(), 1);
    assert_eq!(result[0].command, "401");
}
#[test]
fn test_mode_p_cambia_el_canal_a_privado() {
    let mut user = User::new(true);
    user.nickname = "nick1".to_string();
    let mut channel = Channel::new(&"#canal1".to_string());
    channel.add_admin("nick1".to_string());
    assert!(!channel.is_private());
    let mut users = vec![user];
    let mut channels = vec![channel];
    let msg = Message::from("JOIN #canal1".to_string());
    let _ = join_msg(
        msg,
        "nick1".to_string(),
        &mut users,
        &mut channels, &mut Vec::new())
    .unwrap();
    let msg_mode = Message::from("MODE #canal1 +p".to_string());
    let result = mode_msg(msg_mode, "nick1".to_string(), &mut channels).unwrap();
    assert_eq!(result.len(), 0);
    let mut lock_channel = channels;
    if let Some(channel) = lock_channel
        .iter_mut()
        .find(|channel| channel.name == "#canal1")
    {
        assert!(channel.is_private());
    }
}
#[test]
fn test_mode_de_p_cambia_el_canal_a_no_privado() {
    let mut user = User::new(true);
    user.nickname = "nick1".to_string();
    let mut channel = Channel::new(&"#canal1".to_string());
    channel.add_admin("nick1".to_string());
    channel.mode.activate_p();
    assert!(channel.is_private());
    let mut users = vec![user];
    let mut channels = vec![channel];
    let msg = Message::from("JOIN #canal1".to_string());
    let _ = join_msg(
        msg,
        "nick1".to_string(),
        &mut users,
        &mut channels, &mut Vec::new())
    .unwrap();
    let msg_mode = Message::from("MODE #canal1 -p".to_string());
    let result = mode_msg(msg_mode, "nick1".to_string(), &mut channels).unwrap();
    assert_eq!(result.len(), 0);
    let mut lock_channel = channels;
    if let Some(channel) = lock_channel
        .iter_mut()
        .find(|channel| channel.name == "#canal1")
    {
        assert!(!channel.is_private());
    }
}
#[test]
fn test_mode_s_cambia_el_canal_a_secreto() {
    let mut user = User::new(true);
    user.nickname = "nick1".to_string();
    let mut channel = Channel::new(&"#canal1".to_string());
    channel.add_admin("nick1".to_string());
    assert!(!channel.is_secret());
    let mut users = vec![user];
    let mut channels = vec![channel];
    let msg = Message::from("JOIN #canal1".to_string());
    let _ = join_msg(
        msg,
        "nick1".to_string(),
        &mut users,
        &mut channels, &mut Vec::new())
    .unwrap();
    let msg_mode = Message::from("MODE #canal1 +s".to_string());
    let result = mode_msg(msg_mode, "nick1".to_string(), &mut channels).unwrap();
    assert_eq!(result.len(), 0);
    let mut lock_channel = channels;
    if let Some(channel) = lock_channel
        .iter_mut()
        .find(|channel| channel.name == "#canal1")
    {
        assert!(channel.is_secret());
    }
}
#[test]
fn test_mode_de_s_cambia_el_canal_a_no_secreto() {
    let mut user = User::new(true);
    user.nickname = "nick1".to_string();
    let mut channel = Channel::new(&"#canal1".to_string());
    channel.add_admin("nick1".to_string());
    channel.mode.activate_s();
    assert!(channel.is_secret());
    let mut users = vec![user];
    let mut channels = vec![channel];
    let msg = Message::from("JOIN #canal1".to_string());
    let _ = join_msg(
        msg,
        "nick1".to_string(),
        &mut users,
        &mut channels, &mut Vec::new())
    .unwrap();
    let msg_mode = Message::from("MODE #canal1 -s".to_string());
    let result = mode_msg(msg_mode, "nick1".to_string(), &mut channels).unwrap();
    assert_eq!(result.len(), 0);
    let mut lock_channel = channels;
    if let Some(channel) = lock_channel
        .iter_mut()
        .find(|channel| channel.name == "#canal1")
    {
        assert!(!channel.is_secret());
    }
}
#[test]
fn test_mode_t_cambia_el_canal_a_topic_only_oper() {
    let mut user = User::new(true);
    user.nickname = "nick1".to_string();
    let mut channel = Channel::new(&"#canal1".to_string());
    channel.add_admin("nick1".to_string());
    assert!(!channel.is_topic_operator_only());
    let mut users = vec![user];
    let mut channels = vec![channel];
    let msg = Message::from("JOIN #canal1".to_string());
    let _ = join_msg(
        msg,
        "nick1".to_string(),
        &mut users,
        &mut channels, &mut Vec::new())
    .unwrap();
    let msg_mode = Message::from("MODE #canal1 +t".to_string());
    let result = mode_msg(msg_mode, "nick1".to_string(), &mut channels).unwrap();
    assert_eq!(result.len(), 0);
    let mut lock_channel = channels;
    if let Some(channel) = lock_channel
        .iter_mut()
        .find(|channel| channel.name == "#canal1")
    {
        assert!(channel.is_topic_operator_only());
    }
}
#[test]
fn test_mode_de_t_cambia_el_canal_a_no_topic_only_oper() {
    let mut user = User::new(true);
    user.nickname = "nick1".to_string();
    let mut channel = Channel::new(&"#canal1".to_string());
    channel.add_admin("nick1".to_string());
    channel.mode.activate_t();
    assert!(channel.is_topic_operator_only());
    let mut users = vec![user];
    let mut channels = vec![channel];
    let msg = Message::from("JOIN #canal1".to_string());
    let _ = join_msg(
        msg,
        "nick1".to_string(),
        &mut users,
        &mut channels, &mut Vec::new())
    .unwrap();
    let msg_mode = Message::from("MODE #canal1 -t".to_string());
    let result = mode_msg(msg_mode, "nick1".to_string(), &mut channels).unwrap();
    assert_eq!(result.len(), 0);
    let mut lock_channel = channels;
    if let Some(channel) = lock_channel
        .iter_mut()
        .find(|channel| channel.name == "#canal1")
    {
        assert!(!channel.is_topic_operator_only());
    }
}
#[test]
fn test_mode_i_cambia_el_canal_a_invite_only() {
    let mut user = User::new(true);
    user.nickname = "nick1".to_string();
    let mut channel = Channel::new(&"#canal1".to_string());
    channel.add_admin("nick1".to_string());
    assert!(!channel.is_invite_only());
    let mut users = vec![user];
    let mut channels = vec![channel];
    let msg = Message::from("JOIN #canal1".to_string());
    let _ = join_msg(
        msg,
        "nick1".to_string(),
        &mut users,
        &mut channels, &mut Vec::new())
    .unwrap();
    let msg_mode = Message::from("MODE #canal1 +i".to_string());
    let result = mode_msg(msg_mode, "nick1".to_string(), &mut channels).unwrap();
    assert_eq!(result.len(), 0);
    let mut lock_channel = channels;
    if let Some(channel) = lock_channel
        .iter_mut()
        .find(|channel| channel.name == "#canal1")
    {
        assert!(channel.is_invite_only());
    }
}
#[test]
fn test_mode_de_i_cambia_el_canal_a_no_invite_only() {
    let mut user = User::new(true);
    user.nickname = "nick1".to_string();
    let mut channel = Channel::new(&"#canal1".to_string());
    channel.add_admin("nick1".to_string());
    channel.mode.activate_i();
    assert!(channel.is_invite_only());
    let mut users = vec![user];
    let mut channels = vec![channel];
    let msg = Message::from("JOIN #canal1".to_string());
    let _ = join_msg(
        msg,
        "nick1".to_string(),
        &mut users,
        &mut channels, &mut Vec::new())
    .unwrap();
    let msg_mode = Message::from("MODE #canal1 -i".to_string());
    let result = mode_msg(msg_mode, "nick1".to_string(), &mut channels).unwrap();
    assert_eq!(result.len(), 0);
    let mut lock_channel = channels;
    if let Some(channel) = lock_channel
        .iter_mut()
        .find(|channel| channel.name == "#canal1")
    {
        assert!(!channel.is_invite_only());
    }
}
#[test]
fn test_mode_n_cambia_no_msg_from_outside() {
    let mut user = User::new(true);
    user.nickname = "nick1".to_string();
    let mut channel = Channel::new(&"#canal1".to_string());
    channel.add_admin("nick1".to_string());
    assert!(!channel.is_no_msg_outside());
    let mut users = vec![user];
    let mut channels = vec![channel];
    let msg = Message::from("JOIN #canal1".to_string());
    let _ = join_msg(
        msg,
        "nick1".to_string(),
        &mut users,
        &mut channels, &mut Vec::new())
    .unwrap();
    let msg_mode = Message::from("MODE #canal1 +n".to_string());
    let result = mode_msg(msg_mode, "nick1".to_string(), &mut channels).unwrap();
    assert_eq!(result.len(), 0);
    let mut lock_channel = channels;
    if let Some(channel) = lock_channel
        .iter_mut()
        .find(|channel| channel.name == "#canal1")
    {
        assert!(channel.is_no_msg_outside());
    }
}
#[test]
fn test_mode_de_n_cambia_a_msg_from_outside() {
    let mut user = User::new(true);
    user.nickname = "nick1".to_string();
    let mut channel = Channel::new(&"#canal1".to_string());
    channel.add_admin("nick1".to_string());
    channel.mode.activate_n();
    assert!(channel.is_no_msg_outside());
    let mut users = vec![user];
    let mut channels = vec![channel];
    let msg = Message::from("JOIN #canal1".to_string());
    let _ = join_msg(
        msg,
        "nick1".to_string(),
        &mut users,
        &mut channels, &mut Vec::new())
    .unwrap();
    let msg_mode = Message::from("MODE #canal1 -n".to_string());
    let result = mode_msg(msg_mode, "nick1".to_string(), &mut channels).unwrap();
    assert_eq!(result.len(), 0);
    let mut lock_channel = channels;
    if let Some(channel) = lock_channel
        .iter_mut()
        .find(|channel| channel.name == "#canal1")
    {
        assert!(!channel.is_no_msg_outside());
    }
}
#[test]
fn test_mode_m_cambia_moderated_channel() {
    let mut user = User::new(true);
    user.nickname = "nick1".to_string();
    let mut channel = Channel::new(&"#canal1".to_string());
    channel.add_admin("nick1".to_string());
    assert!(!channel.is_moderated());
    let mut users = vec![user];
    let mut channels = vec![channel];
    let msg = Message::from("JOIN #canal1".to_string());
    let _ = join_msg(
        msg,
        "nick1".to_string(),
        &mut users,
        &mut channels, &mut Vec::new())
    .unwrap();
    let msg_mode = Message::from("MODE #canal1 +m".to_string());
    let result = mode_msg(msg_mode, "nick1".to_string(), &mut channels).unwrap();
    assert_eq!(result.len(), 0);
    let mut lock_channel = channels;
    if let Some(channel) = lock_channel
        .iter_mut()
        .find(|channel| channel.name == "#canal1")
    {
        assert!(channel.is_moderated());
    }
}
#[test]
fn test_mode_de_m_cambia_no_moderated_channel() {
    let mut user = User::new(true);
    user.nickname = "nick1".to_string();
    let mut channel = Channel::new(&"#canal1".to_string());
    channel.add_admin("nick1".to_string());
    channel.mode.activate_m();
    assert!(channel.is_moderated());
    let mut users = vec![user];
    let mut channels = vec![channel];
    let msg = Message::from("JOIN #canal1".to_string());
    let _ = join_msg(
        msg,
        "nick1".to_string(),
        &mut users,
        &mut channels, &mut Vec::new())
    .unwrap();
    let msg_mode = Message::from("MODE #canal1 -m".to_string());
    let result = mode_msg(msg_mode, "nick1".to_string(), &mut channels).unwrap();
    assert_eq!(result.len(), 0);
    let mut lock_channel = channels;
    if let Some(channel) = lock_channel
        .iter_mut()
        .find(|channel| channel.name == "#canal1")
    {
        assert!(!channel.is_moderated());
    }
}
#[test]
fn test_mode_v_agrega_speakers() {
    let mut user = User::new(true);
    user.nickname = "nick1".to_string();
    let mut user2 = User::new(true);
    user2.nickname = "nick2".to_string();
    let mut channel = Channel::new(&"#canal1".to_string());
    channel.add_admin("nick1".to_string());
    assert_eq!(channel.can_speak_users.len(), 0);
    let mut users = vec![user, user2];
    let mut channels = vec![channel];
    let msg = Message::from("JOIN #canal1".to_string());
    let msg2 = Message::from("JOIN #canal1".to_string());
    let _ = join_msg(
        msg,
        "nick1".to_string(),
        &mut users,
        &mut channels, &mut Vec::new())
    .unwrap();
    let _ = join_msg(
        msg2,
        "nick2".to_string(),
        &mut users,
        &mut channels, &mut Vec::new())
    .unwrap();
    let msg_mode = Message::from("MODE #canal1 +v nick2".to_string());
    let result = mode_msg(msg_mode, "nick1".to_string(), &mut channels).unwrap();
    assert_eq!(result.len(), 0);
    let mut lock_channel = channels;
    if let Some(channel) = lock_channel
        .iter_mut()
        .find(|channel| channel.name == "#canal1")
    {
        assert_eq!(channel.can_speak_users.len(), 1);
        assert!(channel.can_speak(&"nick2".to_string()))
    }
}
#[test]
fn test_mode_de_v_elimina_speakers() {
    let mut user = User::new(true);
    user.nickname = "nick1".to_string();
    let mut user2 = User::new(true);
    user2.nickname = "nick2".to_string();
    let mut channel = Channel::new(&"#canal1".to_string());
    channel.add_admin("nick1".to_string());
    channel.add_speaker("nick2".to_string());
    assert_eq!(channel.can_speak_users.len(), 1);
    assert!(channel.can_speak(&"nick2".to_string()));
    let mut users = vec![user, user2];
    let mut channels = vec![channel];
    let msg = Message::from("JOIN #canal1".to_string());
    let msg2 = Message::from("JOIN #canal1".to_string());
    let _ = join_msg(
        msg,
        "nick1".to_string(),
        &mut users,
        &mut channels, &mut Vec::new())
    .unwrap();
    let _ = join_msg(
        msg2,
        "nick2".to_string(),
        &mut users,
        &mut channels, &mut Vec::new())
    .unwrap();
    let msg_mode = Message::from("MODE #canal1 -v nick2".to_string());
    let result = mode_msg(msg_mode, "nick1".to_string(), &mut channels).unwrap();
    assert_eq!(result.len(), 0);
    let mut lock_channel = channels;
    if let Some(channel) = lock_channel
        .iter_mut()
        .find(|channel| channel.name == "#canal1")
    {
        assert_eq!(channel.can_speak_users.len(), 0);
        assert!(!channel.can_speak(&"nick2".to_string()))
    }
}
#[test]
fn test_mode_l_canal_sin_limite_cambia_limite() {
    let mut user = User::new(true);
    user.nickname = "nick1".to_string();
    let mut channel = Channel::new(&"#canal1".to_string());
    channel.add_admin("nick1".to_string());
    assert!(!channel.has_limit());
    let mut users = vec![user];
    let mut channels = vec![channel];
    let msg = Message::from("JOIN #canal1".to_string());
    let _ = join_msg(
        msg,
        "nick1".to_string(),
        &mut users,
        &mut channels, &mut Vec::new())
    .unwrap();
    let msg_mode = Message::from("MODE #canal1 +l 10".to_string());
    let result = mode_msg(msg_mode, "nick1".to_string(), &mut channels).unwrap();
    assert_eq!(result.len(), 0);
    let mut lock_channel = channels;
    if let Some(channel) = lock_channel
        .iter_mut()
        .find(|channel| channel.name == "#canal1")
    {
        assert!(channel.has_limit());
        assert_eq!(channel.limit, Some(10));
    }
}
#[test]
fn test_mode_de_l_saca_limite() {
    let mut user = User::new(true);
    user.nickname = "nick1".to_string();
    let mut channel = Channel::new(&"#canal1".to_string());
    channel.add_admin("nick1".to_string());
    assert!(!channel.has_limit());
    channel.limit = Option::from(5);
    channel.mode.activate_l();
    assert!(channel.has_limit());
    assert_eq!(channel.limit, Some(5));
    let mut users = vec![user];
    let mut channels = vec![channel];
    let msg = Message::from("JOIN #canal1".to_string());
    let _ = join_msg(
        msg,
        "nick1".to_string(),
        &mut users,
        &mut channels, &mut Vec::new())
    .unwrap();
    let msg_mode = Message::from("MODE #canal1 -l".to_string());
    let result = mode_msg(msg_mode, "nick1".to_string(), &mut channels).unwrap();
    assert_eq!(result.len(), 0);
    let mut lock_channel = channels;
    if let Some(channel) = lock_channel
        .iter_mut()
        .find(|channel| channel.name == "#canal1")
    {
        assert!(!channel.has_limit());
        assert_eq!(channel.limit, None);
    }
}
#[test]
fn test_mode_l_canal_sin_limite_y_limite_menor_a_cant_usuarios_no_cambia_limite() {
    let mut user = User::new(true);
    user.nickname = "nick1".to_string();
    let mut user2 = User::new(true);
    user2.nickname = "nick2".to_string();
    let mut channel = Channel::new(&"#canal1".to_string());
    channel.add_admin("nick1".to_string());
    assert!(!channel.has_limit());
    let mut users = vec![user, user2];
    let mut channels = vec![channel];
    let msg = Message::from("JOIN #canal1".to_string());
    let msg2 = Message::from("JOIN #canal1".to_string());
    let _ = join_msg(
        msg,
        "nick1".to_string(),
        &mut users,
        &mut channels, &mut Vec::new())
    .unwrap();
    let _ = join_msg(
        msg2,
        "nick2".to_string(),
        &mut users,
        &mut channels, &mut Vec::new())
    .unwrap();
    let msg_mode = Message::from("MODE #canal1 +l 1".to_string());
    let result = mode_msg(msg_mode, "nick1".to_string(), &mut channels).unwrap();
    assert_eq!(result.len(), 0);
    let mut lock_channel = channels;
    if let Some(channel) = lock_channel
        .iter_mut()
        .find(|channel| channel.name == "#canal1")
    {
        assert!(!channel.has_limit());
    }
}
#[test]
fn test_mode_l_canal_con_limite_no_cambia_limite_de_vuelta() {
    let mut user = User::new(true);
    user.nickname = "nick1".to_string();
    let mut channel = Channel::new(&"#canal1".to_string());
    channel.add_admin("nick1".to_string());
    assert!(!channel.has_limit());
    channel.limit = Option::from(5);
    channel.mode.activate_l();
    assert!(channel.has_limit());
    assert_eq!(channel.limit, Some(5));
    let mut users = vec![user];
    let mut channels = vec![channel];
    let msg = Message::from("JOIN #canal1".to_string());
    let _ = join_msg(
        msg,
        "nick1".to_string(),
        &mut users,
        &mut channels, &mut Vec::new())
    .unwrap();
    let msg_mode = Message::from("MODE #canal1 +l 10".to_string());
    let result = mode_msg(msg_mode, "nick1".to_string(), &mut channels).unwrap();
    assert_eq!(result.len(), 0);
    let mut lock_channel = channels;
    if let Some(channel) = lock_channel
        .iter_mut()
        .find(|channel| channel.name == "#canal1")
    {
        assert!(channel.has_limit());
        assert_eq!(channel.limit, Some(5));
    }
}
#[test]
fn test_mode_k_canal_sin_password_cambia_password() {
    let mut user = User::new(true);
    user.nickname = "nick1".to_string();
    let mut channel = Channel::new(&"#canal1".to_string());
    channel.add_admin("nick1".to_string());
    assert!(!channel.has_key());
    let mut users = vec![user];
    let mut channels = vec![channel];
    let msg = Message::from("JOIN #canal1".to_string());
    let _ = join_msg(
        msg,
        "nick1".to_string(),
        &mut users,
        &mut channels, &mut Vec::new())
    .unwrap();
    let msg_mode = Message::from("MODE #canal1 +k password".to_string());
    let result = mode_msg(msg_mode, "nick1".to_string(), &mut channels).unwrap();
    assert_eq!(result.len(), 0);
    let mut lock_channel = channels;
    if let Some(channel) = lock_channel
        .iter_mut()
        .find(|channel| channel.name == "#canal1")
    {
        assert!(channel.has_key());
        assert_eq!(channel.password, Some("password".to_string()));
    }
}
#[test]
fn test_mode_k_canal_con_password_no_cambia_password() {
    let mut user = User::new(true);
    user.nickname = "nick1".to_string();
    let mut channel = Channel::new(&"#canal1".to_string());
    channel.add_admin("nick1".to_string());
    assert!(!channel.has_key());
    channel.password = Some("password".to_string());
    channel.mode.activate_k();
    assert!(channel.has_key());
    let mut users = vec![user];
    let mut channels = vec![channel];
    let msg = Message::from("JOIN #canal1 password".to_string());
    let _ = join_msg(
        msg,
        "nick1".to_string(),
        &mut users,
        &mut channels, &mut Vec::new())
    .unwrap();
    let msg_mode = Message::from("MODE #canal1 +k passwordchange".to_string());
    let result = mode_msg(msg_mode, "nick1".to_string(), &mut channels).unwrap();
    assert_eq!(result.len(), 1);
    assert_eq!(result[0].command, "467");
    let mut lock_channel = channels;
    if let Some(channel) = lock_channel
        .iter_mut()
        .find(|channel| channel.name == "#canal1")
    {
        assert!(channel.has_key());
        assert_eq!(channel.password, Some("password".to_string()));
    }
}
#[test]
fn test_mode_de_k_saca_password() {
    let mut user = User::new(true);
    user.nickname = "nick1".to_string();
    let mut channel = Channel::new(&"#canal1".to_string());
    channel.add_admin("nick1".to_string());
    assert!(!channel.has_key());
    channel.password = Some("password".to_string());
    channel.mode.activate_k();
    assert!(channel.has_key());
    let mut users = vec![user];
    let mut channels = vec![channel];
    let msg = Message::from("JOIN #canal1 password".to_string());
    let _ = join_msg(
        msg,
        "nick1".to_string(),
        &mut users,
        &mut channels, &mut Vec::new())
    .unwrap();
    let msg_mode = Message::from("MODE #canal1 -k".to_string());
    let result = mode_msg(msg_mode, "nick1".to_string(), &mut channels).unwrap();
    assert_eq!(result.len(), 0);
    let mut lock_channel = channels;
    if let Some(channel) = lock_channel
        .iter_mut()
        .find(|channel| channel.name == "#canal1")
    {
        assert!(!channel.has_key());
        assert_eq!(channel.password, None);
    }
}
#[test]
fn test_mode_b_agrega_ban_mask() {
    let mut user = User::new(true);
    user.nickname = "nick1".to_string();
    let mut channel = Channel::new(&"#canal1".to_string());
    channel.add_admin("nick1".to_string());
    assert!(channel.ban_masks.is_empty());
    let mut users = vec![user];
    let mut channels = vec![channel];
    let msg = Message::from("JOIN #canal1".to_string());
    let _ = join_msg(
        msg,
        "nick1".to_string(),
        &mut users,
        &mut channels, &mut Vec::new())
    .unwrap();
    let msg_mode = Message::from("MODE #canal1 +b *!*@*".to_string());
    let result = mode_msg(msg_mode, "nick1".to_string(), &mut channels).unwrap();
    assert_eq!(result.len(), 0);
    let mut lock_channel = channels;
    if let Some(channel) = lock_channel
        .iter_mut()
        .find(|channel| channel.name == "#canal1")
    {
        assert!(!channel.ban_masks.is_empty());
        assert_eq!(channel.ban_masks[0], "*!*@*");
    }
}
#[test]
fn test_mode_b_con_ban_mask_devuelve_ban_list() {
    let mut user = User::new(true);
    user.nickname = "nick1".to_string();
    let mut channel = Channel::new(&"#canal1".to_string());
    channel.add_admin("nick1".to_string());
    channel.ban_masks.push("*!*@*".to_string());
    let mut users = vec![user];
    let mut channels = vec![channel];
    let msg = Message::from("JOIN #canal1".to_string());
    let _ = join_msg(
        msg,
        "nick1".to_string(),
        &mut users,
        &mut channels, &mut Vec::new())
    .unwrap();
    let msg_mode = Message::from("MODE #canal1 +b".to_string());
    let result = mode_msg(msg_mode, "nick1".to_string(), &mut channels).unwrap();
    assert_eq!(result.len(), 2);
    assert_eq!(result[0].command, "367");
    assert_eq!(result[0].parameters, ["#canal1", "*!*@*"]);
    assert_eq!(result[1].command, "368");
}

#[test]
fn test_mode_de_b_elimina_ban_mask() {
    let mut user = User::new(true);
    user.nickname = "nick1".to_string();
    let mut channel = Channel::new(&"#canal1".to_string());
    channel.add_admin("nick1".to_string());
    channel.ban_masks.push("*!*@*".to_string());
    let mut users = vec![user];
    let mut channels = vec![channel];
    let msg = Message::from("JOIN #canal1".to_string());
    let _ = join_msg(
        msg,
        "nick1".to_string(),
        &mut users,
        &mut channels, &mut Vec::new())
    .unwrap();
    let msg_mode = Message::from("MODE #canal1 -b *!*@*".to_string());
    let result = mode_msg(msg_mode, "nick1".to_string(), &mut channels).unwrap();
    assert_eq!(result.len(), 0);
    let mut lock_channel = channels;
    if let Some(channel) = lock_channel
        .iter_mut()
        .find(|channel| channel.name == "#canal1")
    {
        assert!(channel.ban_masks.is_empty());
    }
}
#[test]
fn test_mode_ims_cambia_el_canal_a_invite_only_moderated_y_secret() {
    let mut user = User::new(true);
    user.nickname = "nick1".to_string();
    let mut channel = Channel::new(&"#canal1".to_string());
    channel.add_admin("nick1".to_string());
    assert!(!channel.is_invite_only());
    assert!(!channel.is_moderated());
    assert!(!channel.is_secret());
    let mut users = vec![user];
    let mut channels = vec![channel];
    let msg = Message::from("JOIN #canal1".to_string());
    let _ = join_msg(
        msg,
        "nick1".to_string(),
        &mut users,
        &mut channels, &mut Vec::new())
    .unwrap();
    let msg_mode = Message::from("MODE #canal1 +ims".to_string());
    let result = mode_msg(msg_mode, "nick1".to_string(), &mut channels).unwrap();
    assert_eq!(result.len(), 0);
    let mut lock_channel = channels;
    if let Some(channel) = lock_channel
        .iter_mut()
        .find(|channel| channel.name == "#canal1")
    {
        assert!(channel.is_invite_only());
        assert!(channel.is_moderated());
        assert!(channel.is_secret());
    }
}
#[test]
fn test_join_con_canal_lleno_devuelve_canal_lleno() {
    let mut user = User::new(true);
    user.nickname = "nick1".to_string();
    let mut channel = Channel::new(&"#canal1".to_string());
    channel.mode.activate_l();
    channel.limit = Some(2);
    channel.add_user("user1".to_string());
    channel.add_user("user2".to_string());
    assert_eq!(channel.users.len(), 2);
    let mut users = vec![user];
    let mut channels = vec![channel];
    let msg = Message::from("JOIN #canal1".to_string());
    let result = join_msg(
        msg,
        "nick1".to_string(),
        &mut users,
        &mut channels, &mut Vec::new())
    .unwrap();
    assert_eq!(result.len(), 1);
    assert_eq!(result[0].command, "471");
}
#[test]
fn test_join_a_canal_invite_only_devuelve_error_invite_only() {
    let mut user = User::new(true);
    user.nickname = "nick1".to_string();
    let mut channel = Channel::new(&"#canal1".to_string());
    channel.mode.activate_i();
    let mut users = vec![user];
    let mut channels = vec![channel];
    let msg = Message::from("JOIN #canal1".to_string());
    let result = join_msg(
        msg,
        "nick1".to_string(),
        &mut users,
        &mut channels, &mut Vec::new())
    .unwrap();
    assert_eq!(result.len(), 1);
    assert_eq!(result[0].command, "473");
}
#[test]
fn test_join_a_canal_con_clave_sin_poner_clave_devuelve_error() {
    let mut user = User::new(true);
    user.nickname = "nick1".to_string();
    let mut channel = Channel::new(&"#canal1".to_string());
    channel.mode.activate_k();
    channel.password = Some("password".to_string());
    let mut users = vec![user];
    let mut channels = vec![channel];
    let msg = Message::from("JOIN #canal1".to_string());
    let result = join_msg(
        msg,
        "nick1".to_string(),
        &mut users,
        &mut channels, &mut Vec::new())
    .unwrap();
    assert_eq!(result.len(), 1);
    assert_eq!(result[0].command, "475");
}

#[test]
fn test_join_a_canal_con_clave_con_clave_incorrecta_devuelve_error() {
    let mut user = User::new(true);
    user.nickname = "nick1".to_string();
    let mut channel = Channel::new(&"#canal1".to_string());
    channel.mode.activate_k();
    channel.password = Some("password".to_string());
    let mut users = vec![user];
    let mut channels = vec![channel];
    let msg = Message::from("JOIN #canal1 invalidpassword".to_string());
    let result = join_msg(
        msg,
        "nick1".to_string(),
        &mut users,
        &mut channels, &mut Vec::new())
    .unwrap();
    assert_eq!(result.len(), 1);
    assert_eq!(result[0].command, "475");
}
#[test]
fn test_invite_con_canal_lleno_devuelve_canal_lleno() {
    let mut user = User::new(true);
    user.nickname = "nick1".to_string();
    let mut user2 = User::new(true);
    user2.nickname = "nick2".to_string();
    let mut channel = Channel::new(&"#canal1".to_string());
    channel.mode.activate_l();
    channel.limit = Some(1);
    channel.add_user("nick1".to_string());
    user.add_channel(&"#canal1".to_string());
    let mut users = vec![user, user2];
    let mut channels = vec![channel];
    let msg_invite = Message::from("INVITE nick2 #canal1".to_string());
    let result = invite_msg(
        msg_invite,
        &mut users,
        "nick1".to_string(),
        &mut channels,
    )
    .unwrap();
    assert_eq!(result.len(), 1);
    assert_eq!(result[0].command, "471");
}

