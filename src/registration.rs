use vstd::prelude::*;
use vstd::string::StringExecFns;
use crate::message::{InvalidMessageError, Message};
use crate::net::Server;
use crate::user::User;

verus! {

/// What a registration line does: PASS, NICK and USER fill in the user, SERVER
/// names the connecting server; anything else, or a wrong number of
/// parameters, is refused.
pub fn register_data_for_connection(message: Message, user: &mut User, server: &mut Server) -> (r: Result<(), InvalidMessageError>)
    ensures
        ({
            let c = message@.command;
            let ps = message@.parameters;
            if c == "PASS"@ {
                if ps.len() == 1 {
                    r is Ok && *final(user) == (User { password: message.parameters@[0], ..*old(user) }) && *final(server) == *old(server)
                } else {
                    r is Err && r->Err_0.error_message@ == "Invalid parameters length"@ && *final(user) == *old(user) && *final(server) == *old(server)
                }
            } else if c == "NICK"@ {
                if ps.len() == 1 {
                    r is Ok && *final(user) == (User { nickname: message.parameters@[0], ..*old(user) }) && *final(server) == *old(server)
                } else {
                    r is Err && r->Err_0.error_message@ == "Invalid parameters length"@ && *final(user) == *old(user) && *final(server) == *old(server)
                }
            } else if c == "USER"@ {
                if ps.len() == 4 {
                    &&& r is Ok
                    &&& *final(user) == (User {
                        username: message.parameters@[0],
                        hostname: message.parameters@[1],
                        server: message.parameters@[2],
                        realname: message.parameters@[3],
                        ..*old(user)
                    })
                    &&& *final(server) == *old(server)
                } else {
                    r is Err && r->Err_0.error_message@ == "Invalid parameters length"@ && *final(user) == *old(user) && *final(server) == *old(server)
                }
            } else if c == "SERVER"@ {
                if ps.len() >= 1 {
                    r is Ok && *final(user) == *old(user) && final(server).name == message.parameters@[0] && final(server).connected_servers == old(server).connected_servers
                } else {
                    r is Err && r->Err_0.error_message@ == "Invalid parameters length"@ && *final(user) == *old(user) && *final(server) == *old(server)
                }
            } else {
                r is Err && r->Err_0.error_message@ == "Not a registration command"@ && *final(user) == *old(user) && *final(server) == *old(server)
            }
        }),
{
    let pass = String::from_str("PASS");
    let nick = String::from_str("NICK");
    let user_cmd = String::from_str("USER");
    let server_cmd = String::from_str("SERVER");
    let n = message.parameters.len();
    let mut message = message;
    if message.command == pass {
        if n != 1 {
            return Err(length_error());
        }
        user.password = message.parameters.remove(0);
    } else if message.command == nick {
        if n != 1 {
            return Err(length_error());
        }
        user.nickname = message.parameters.remove(0);
    } else if message.command == user_cmd {
        if n != 4 {
            return Err(length_error());
        }
        let ghost ps = message.parameters@;
        user.realname = message.parameters.remove(3);
        user.server = message.parameters.remove(2);
        user.hostname = message.parameters.remove(1);
        user.username = message.parameters.remove(0);
    } else if message.command == server_cmd {
        if n == 0 {
            return Err(length_error());
        }
        server.name = message.parameters.remove(0);
    } else {
        return Err(InvalidMessageError { error_message: String::from_str("Not a registration command") });
    }
    Ok(())
}

/// The error for a registration line with the wrong number of parameters.
fn length_error() -> (r: InvalidMessageError)
    ensures
        r.error_message@ == "Invalid parameters length"@,
{
    InvalidMessageError { error_message: String::from_str("Invalid parameters length") }
}

} // verus!
