use irc_server::message::Message;
use irc_server::net::Server;
use irc_server::registration::register_data_for_connection;
use irc_server::user::User;

#[test]
fn test_recibir_comando_incorrecto_devuelve_error_de_mensaje_invalido() {
    let mut user = User::new(true);
    let mut server = Server::new();
    let message = Message {
        prefix: None,
        command: "INVALID".to_string(),
        parameters: Vec::new(),
    };

    let result = register_data_for_connection(message, &mut user, &mut server);

    assert!(result.is_err());
    assert_eq!(
        result.unwrap_err().error_message,
        "Not a registration command"
    );
    assert!(!user.is_registered());
}

#[test]
fn test_recibir_comando_con_cantidad_parametros_incorrecta_devuelve_error() {
    let mut user = User::new(true);
    let mut server = Server::new();
    let message = Message {
        prefix: None,
        command: "PASS".to_string(),
        parameters: Vec::new(),
    };

    let result = register_data_for_connection(message, &mut user, &mut server);

    assert!(result.is_err());
    assert_eq!(
        result.unwrap_err().error_message,
        "Invalid parameters length"
    );
}

#[test]
fn test_comando_pass_setea_la_password() {
    let mut user = User::new(true);
    let mut server = Server::new();
    let message = Message {
        prefix: None,
        command: "PASS".to_string(),
        parameters: ["pass123".to_string()].to_vec(),
    };

    let _ = register_data_for_connection(message, &mut user, &mut server);

    assert_eq!(user.password, "pass123".to_string());
}

#[test]
fn test_comando_nick_setea_el_nickname() {
    let mut user = User::new(true);
    let mut server = Server::new();
    let message = Message {
        prefix: None,
        command: "NICK".to_string(),
        parameters: ["my_nickname".to_string()].to_vec(),
    };

    let _ = register_data_for_connection(message, &mut user, &mut server);

    assert_eq!(user.nickname, "my_nickname".to_string());
}

#[test]
fn test_comando_user_setea_datos_de_usuario() {
    let mut user = User::new(true);
    let mut server = Server::new();
    let message = Message {
        prefix: None,
        command: "USER".to_string(),
        parameters: [
            "my_username".to_string(),
            "host".to_string(),
            "server".to_string(),
            "Pablo D.".to_string(),
        ]
        .to_vec(),
    };

    let _ = register_data_for_connection(message, &mut user, &mut server);

    assert_eq!(user.username, "my_username".to_string());
    assert_eq!(user.hostname, "host".to_string());
    assert_eq!(user.server, "server".to_string());
    assert_eq!(user.realname, "Pablo D.".to_string());
}
