use irc_server::channel::{create_valid_channel, Channel};


#[test]
fn test_recibir_nombre_valido_crea_canal() {
    let name = "#channel1".to_string();
    let channel = create_valid_channel(name);
    assert_eq!("#channel1", channel.unwrap().name);
}

#[test]
fn test_agregar_usuario_a_canal_y_despues_encuentra_usuario() {
    let channel_name = "#channel1".to_string();
    let mut channel = create_valid_channel(channel_name).unwrap();
    let user_nickname = "nick1".to_string();
    channel.add_user(user_nickname);
    assert!(channel.has_user(&"nick1".to_string()));
}

#[test]
fn test_agregar_usuario_a_canal_y_eliminarlo() {
    let channel_name = "#channel1".to_string();
    let mut channel = create_valid_channel(channel_name).unwrap();
    let user_nickname = "nick1".to_string();
    channel.add_user(user_nickname);
    assert!(channel.has_user(&"nick1".to_string()));
    channel.remove_user(&"nick1".to_string());
    assert!(!channel.has_user(&"nick1".to_string()));
}

#[test]
fn test_recibir_nombre_invalido_lanza_invalid_message_error() {
    let name = "channel1".to_string();
    let channel = create_valid_channel(name);
    assert!(channel.is_err());
}

#[test]
fn test_user_list() {
    let channel_name = "#channel1".to_string();
    let mut channel = create_valid_channel(channel_name).unwrap();
    let user_nickname = "nick1".to_string();
    let user_nickname2 = "nick2".to_string();
    channel.add_user(user_nickname);
    channel.add_user(user_nickname2);
    assert_eq!(channel.get_users_list(), ",nick1,nick2");
}

#[test]
fn test_is_banned_cumple_con_mask_sin_asteriscos_devuelve_true() {
    let mut channel = Channel::new(&"canal1".to_string());
    let ban_mask = "!hola@chau".to_string();
    channel.ban_masks.push(ban_mask);
    let username = "hola".to_string();
    let hostname = "chau".to_string();
    assert!(channel.is_banned(&username, &hostname));
}
#[test]
fn test_is_banned_no_cumple_con_mask_con_asteriscos_devuelve_false() {
    let mut channel = Channel::new(&"canal1".to_string());
    let ban_mask = "!hola@chau".to_string();
    channel.ban_masks.push(ban_mask);
    let username = "aaahola".to_string();
    let hostname = "chau".to_string();
    assert!(!channel.is_banned(&username, &hostname));
}
#[test]
fn test_is_banned_cumple_con_mask_sin_texto_username_y_asterisco_hostname_devuelve_true() {
    let mut channel = Channel::new(&"canal1".to_string());
    let ban_mask = "!@*".to_string();
    channel.ban_masks.push(ban_mask);
    let username = "hola".to_string();
    let hostname = "chau".to_string();
    assert!(channel.is_banned(&username, &hostname));
}
#[test]
fn test_is_banned_cumple_con_mask_con_asterisco_username_y_asterisco_hostname_devuelve_true() {
    let mut channel = Channel::new(&"canal1".to_string());
    let ban_mask = "!*@*".to_string();
    channel.ban_masks.push(ban_mask);
    let username = "hola".to_string();
    let hostname = "chau".to_string();
    assert!(channel.is_banned(&username, &hostname));
}
#[test]
fn test_is_banned_con_username_correcto_hostname_incorrecto_devuelve_false() {
    let mut channel = Channel::new(&"canal1".to_string());
    let ban_mask = "!hola@dos".to_string();
    channel.ban_masks.push(ban_mask);
    let username = "hola".to_string();
    let hostname = "chau".to_string();
    assert!(!channel.is_banned(&username, &hostname));
}
#[test]
fn test_is_banned_con_username_incorrecto_hostname_correcto_devuelve_false() {
    let mut channel = Channel::new(&"canal1".to_string());
    let ban_mask = "!hola@dos".to_string();
    channel.ban_masks.push(ban_mask);
    let username = "hola".to_string();
    let hostname = "chau".to_string();
    assert!(!channel.is_banned(&username, &hostname));
}
#[test]
fn test_is_banned_cumple_con_mask_sin_texto_username_y_asterisco_y_sufijo_hostname_devuelve_true(
) {
    let mut channel = Channel::new(&"canal1".to_string());
    let ban_mask = "!@*hau".to_string();
    channel.ban_masks.push(ban_mask);
    let username = "hola".to_string();
    let hostname = "chau".to_string();
    assert!(channel.is_banned(&username, &hostname));
}
#[test]
fn test_is_banned_no_cumple_ninguna_mask_devuelve_false() {
    let mut channel = Channel::new(&"canal1".to_string());
    let ban_mask = "!@*prueba1".to_string();
    let ban_mask2 = "!@*prueba2".to_string();
    let ban_mask3 = "!@*prueba3".to_string();
    channel.ban_masks.push(ban_mask);
    channel.ban_masks.push(ban_mask2);
    channel.ban_masks.push(ban_mask3);
    let username = "hola".to_string();
    let hostname = "chau".to_string();
    assert!(!channel.is_banned(&username, &hostname));
}
#[test]
fn test_is_banned_cumple_alguna_mask_devuelve_true() {
    let mut channel = Channel::new(&"canal1".to_string());
    let ban_mask = "!@*prueba1".to_string();
    let ban_mask2 = "!@*chau".to_string();
    let ban_mask3 = "!@*prueba3".to_string();
    channel.ban_masks.push(ban_mask);
    channel.ban_masks.push(ban_mask2);
    channel.ban_masks.push(ban_mask3);
    let username = "hola".to_string();
    let hostname = "chau".to_string();
    assert!(channel.is_banned(&username, &hostname));
}
