use vstd::prelude::*;
use crate::message::{Message, MessageView, parse_line, parse_spec};
use crate::text::{concat, push_char};
use vstd::string::StringExecFns;

verus! {

/// The content of error 461: the command lacks parameters.
pub open spec fn err_need_more_params_v(command: Seq<char>) -> MessageView {
    parse_spec("461 "@ + command + " :Not enough parameters"@)
}

/// Error 461: the command lacks parameters.
pub fn err_need_more_params(command: String) -> (r: Message)
    ensures
        r@ == err_need_more_params_v(command@),
{
    let line = concat("461 ", command.as_str());
    let line = concat(line.as_str(), " :Not enough parameters");
    parse_line(line.as_str())
}

/// The content of reply 332: the topic of a channel.
pub open spec fn rpl_topic_v(channel: Seq<char>, topic: Seq<char>) -> MessageView {
    parse_spec("332 "@ + channel + " :"@ + topic)
}

/// Reply 332: the topic of a channel.
pub fn rpl_topic(channel: String, topic: String) -> (r: Message)
    ensures
        r@ == rpl_topic_v(channel@, topic@),
{
    let line = concat("332 ", channel.as_str());
    let line = concat(line.as_str(), " :");
    let line = concat(line.as_str(), topic.as_str());
    parse_line(line.as_str())
}

/// The content of reply 366: end of a NAMES listing.
pub open spec fn rpl_end_of_names_v(channel: Seq<char>) -> MessageView {
    parse_spec("366 "@ + channel + " :End of /NAMES list"@)
}

/// Reply 366: end of a NAMES listing.
pub fn rpl_end_of_names(channel: String) -> (r: Message)
    ensures
        r@ == rpl_end_of_names_v(channel@),
{
    let line = concat("366 ", channel.as_str());
    let line = concat(line.as_str(), " :End of /NAMES list");
    parse_line(line.as_str())
}

/// The content of error 403: no channel of that name.
pub open spec fn err_no_such_channel_v(channel: Seq<char>) -> MessageView {
    parse_spec("403 "@ + channel + " :No such channel"@)
}

/// Error 403: no channel of that name.
pub fn err_no_such_channel(channel: String) -> (r: Message)
    ensures
        r@ == err_no_such_channel_v(channel@),
{
    let line = concat("403 ", channel.as_str());
    let line = concat(line.as_str(), " :No such channel");
    parse_line(line.as_str())
}

/// The content of error 442: the sender is not on the channel.
pub open spec fn err_not_on_channel_v(channel: Seq<char>) -> MessageView {
    parse_spec("442 "@ + channel + " :You're not on that channel"@)
}

/// Error 442: the sender is not on the channel.
pub fn err_not_on_channel(channel: String) -> (r: Message)
    ensures
        r@ == err_not_on_channel_v(channel@),
{
    let line = concat("442 ", channel.as_str());
    let line = concat(line.as_str(), " :You're not on that channel");
    parse_line(line.as_str())
}

/// The content of reply 321: start of a LIST listing.
pub open spec fn rpl_list_start_v() -> MessageView {
    parse_spec("321 Channel :Users  Name"@)
}

/// Reply 321: start of a LIST listing.
pub fn rpl_list_start() -> (r: Message)
    ensures
        r@ == rpl_list_start_v(),
{
    parse_line("321 Channel :Users  Name")
}

/// The content of reply 322: one channel of a LIST listing, with its topic.
pub open spec fn rpl_list_v(channel: Seq<char>, topic: Seq<char>) -> MessageView {
    parse_spec("322 "@ + channel + " # :"@ + topic)
}

/// Reply 322: one channel of a LIST listing, with its topic.
pub fn rpl_list(channel: String, topic: String) -> (r: Message)
    ensures
        r@ == rpl_list_v(channel@, topic@),
{
    let line = concat("322 ", channel.as_str());
    let line = concat(line.as_str(), " # :");
    let line = concat(line.as_str(), topic.as_str());
    parse_line(line.as_str())
}

/// The content of reply 323: end of a LIST listing.
pub open spec fn rpl_list_end_v() -> MessageView {
    parse_spec("323 :End of /LIST"@)
}

/// Reply 323: end of a LIST listing.
pub fn rpl_list_end() -> (r: Message)
    ensures
        r@ == rpl_list_end_v(),
{
    parse_line("323 :End of /LIST")
}

/// The content of error 401 naming the nickname or channel that was not found.
pub open spec fn error_no_such_nick_v(nick: Seq<char>) -> MessageView {
    parse_spec("401 "@ + nick + " :No such nick/channel"@)
}

/// Error 401 naming the nickname or channel that was not found.
pub fn error_no_such_nick(nick: String) -> (r: Message)
    ensures
        r@ == error_no_such_nick_v(nick@),
{
    let line = concat("401 ", nick.as_str());
    let line = concat(line.as_str(), " :No such nick/channel");
    parse_line(line.as_str())
}

/// The content of error 443: the user is already on the channel.
pub open spec fn err_user_on_channel_v(nick: Seq<char>, channel: Seq<char>) -> MessageView {
    parse_spec("443 "@ + nick + " "@ + channel + " :is already on channel"@)
}

/// Error 443: the user is already on the channel.
pub fn err_user_on_channel(nick: String, channel: String) -> (r: Message)
    ensures
        r@ == err_user_on_channel_v(nick@, channel@),
{
    let line = concat("443 ", nick.as_str());
    let line = concat(line.as_str(), " ");
    let line = concat(line.as_str(), channel.as_str());
    let line = concat(line.as_str(), " :is already on channel");
    parse_line(line.as_str())
}

/// The content of error 482: channel operator privileges are needed.
pub open spec fn err_chan_opriv_is_needed_v(channel: Seq<char>) -> MessageView {
    parse_spec("482 "@ + channel + " :You're not channel operator"@)
}

/// Error 482: channel operator privileges are needed.
pub fn err_chan_opriv_is_needed(channel: String) -> (r: Message)
    ensures
        r@ == err_chan_opriv_is_needed_v(channel@),
{
    let line = concat("482 ", channel.as_str());
    let line = concat(line.as_str(), " :You're not channel operator");
    parse_line(line.as_str())
}

/// The content of reply 341: the invitation was made.
pub open spec fn rpl_inviting_v(nick: Seq<char>, channel: Seq<char>) -> MessageView {
    parse_spec("341 "@ + channel + " "@ + nick)
}

/// Reply 341: the invitation was made.
pub fn rpl_inviting(nick: String, channel: String) -> (r: Message)
    ensures
        r@ == rpl_inviting_v(nick@, channel@),
{
    let line = concat("341 ", channel.as_str());
    let line = concat(line.as_str(), " ");
    let line = concat(line.as_str(), nick.as_str());
    parse_line(line.as_str())
}

/// The content of error 411: no recipient was given.
pub open spec fn err_no_recpient_v(command: Seq<char>) -> MessageView {
    parse_spec("411 :No recipient given "@ + command)
}

/// Error 411: no recipient was given.
pub fn err_no_recpient(command: String) -> (r: Message)
    ensures
        r@ == err_no_recpient_v(command@),
{
    let line = concat("411 :No recipient given ", command.as_str());
    parse_line(line.as_str())
}

/// The content of error 412: no text to send.
pub open spec fn err_no_text_tosend_v() -> MessageView {
    parse_spec("412 :No text to send"@)
}

/// Error 412: no text to send.
pub fn err_no_text_tosend() -> (r: Message)
    ensures
        r@ == err_no_text_tosend_v(),
{
    parse_line("412 :No text to send")
}

/// The content of error 404: the sender may not speak on the channel.
pub open spec fn err_can_not_send_to_chan_v(channel: Seq<char>) -> MessageView {
    parse_spec("404 "@ + channel + " :Cannot send to channel"@)
}

/// Error 404: the sender may not speak on the channel.
pub fn err_can_not_send_to_chan(channel: String) -> (r: Message)
    ensures
        r@ == err_can_not_send_to_chan_v(channel@),
{
    let line = concat("404 ", channel.as_str());
    let line = concat(line.as_str(), " :Cannot send to channel");
    parse_line(line.as_str())
}

/// The content of error 433: the nickname is taken.
pub open spec fn err_nickname_in_use_v(nick: Seq<char>) -> MessageView {
    parse_spec("433 :"@ + nick + " is already in use"@)
}

/// Error 433: the nickname is taken.
pub fn err_nickname_in_use(nick: String) -> (r: Message)
    ensures
        r@ == err_nickname_in_use_v(nick@),
{
    let line = concat("433 :", nick.as_str());
    let line = concat(line.as_str(), " is already in use");
    parse_line(line.as_str())
}

/// The content of error 431: no nickname was given.
pub open spec fn err_no_nickname_given_v() -> MessageView {
    parse_spec("431 :No nickname given"@)
}

/// Error 431: no nickname was given.
pub fn err_no_nickname_given() -> (r: Message)
    ensures
        r@ == err_no_nickname_given_v(),
{
    parse_line("431 :No nickname given")
}

/// The content of reply 381: the sender is now an operator.
pub open spec fn rpl_you_are_oper_v() -> MessageView {
    parse_spec("381 :You are now an IRC operator"@)
}

/// Reply 381: the sender is now an operator.
pub fn rpl_you_are_oper() -> (r: Message)
    ensures
        r@ == rpl_you_are_oper_v(),
{
    parse_line("381 :You are now an IRC operator")
}

/// The content of error 491: the operator credentials were refused.
pub open spec fn err_no_oper_host_v() -> MessageView {
    parse_spec("491 :No O-lines for your host"@)
}

/// Error 491: the operator credentials were refused.
pub fn err_no_oper_host() -> (r: Message)
    ensures
        r@ == err_no_oper_host_v(),
{
    parse_line("491 :No O-lines for your host")
}

/// The content of reply 311: the information of one user.
pub open spec fn rpl_whoisuser_v(info: Seq<char>) -> MessageView {
    parse_spec("311 "@ + info)
}

/// Reply 311: the information of one user.
pub fn rpl_whoisuser(info: String) -> (r: Message)
    ensures
        r@ == rpl_whoisuser_v(info@),
{
    let line = concat("311 ", info.as_str());
    parse_line(line.as_str())
}

/// The content of error 401 without a name.
pub open spec fn err_no_such_nick_v() -> MessageView {
    parse_spec("401 :No such nick"@)
}

/// Error 401 without a name.
pub fn err_no_such_nick() -> (r: Message)
    ensures
        r@ == err_no_such_nick_v(),
{
    parse_line("401 :No such nick")
}

/// The content of reply 352: the matching nicknames.
pub open spec fn rpl_who_reply_v(users: Seq<char>) -> MessageView {
    parse_spec("352 :"@ + users)
}

/// Reply 352: the matching nicknames.
pub fn rpl_who_reply(users: String) -> (r: Message)
    ensures
        r@ == rpl_who_reply_v(users@),
{
    let line = concat("352 :", users.as_str());
    parse_line(line.as_str())
}

/// The content of error 462: the connection is already registered.
pub open spec fn err_already_registred_v() -> MessageView {
    parse_spec("462 :You may not reregister"@)
}

/// Error 462: the connection is already registered.
pub fn err_already_registred() -> (r: Message)
    ensures
        r@ == err_already_registred_v(),
{
    parse_line("462 :You may not reregister")
}

/// The content of reply 331: the channel has no topic.
pub open spec fn rpl_no_topic_v(channel: Seq<char>) -> MessageView {
    parse_spec("331 "@ + channel + " :No topic is set"@)
}

/// Reply 331: the channel has no topic.
pub fn rpl_no_topic(channel: String) -> (r: Message)
    ensures
        r@ == rpl_no_topic_v(channel@),
{
    let line = concat("331 ", channel.as_str());
    let line = concat(line.as_str(), " :No topic is set");
    parse_line(line.as_str())
}

/// The content of reply 306: the sender is now marked away.
pub open spec fn rpl_away_v() -> MessageView {
    parse_spec("306 :You have been marked as being away"@)
}

/// Reply 306: the sender is now marked away.
pub fn rpl_away() -> (r: Message)
    ensures
        r@ == rpl_away_v(),
{
    parse_line("306 :You have been marked as being away")
}

/// The content of reply 305: the sender is no longer marked away.
pub open spec fn rpl_unaway_v() -> MessageView {
    parse_spec("305 :You are no longer marked as being away"@)
}

/// Reply 305: the sender is no longer marked away.
pub fn rpl_unaway() -> (r: Message)
    ensures
        r@ == rpl_unaway_v(),
{
    parse_line("305 :You are no longer marked as being away")
}

/// The content of error 471: the channel has reached its member limit.
pub open spec fn err_channel_is_full_v(channel: Seq<char>) -> MessageView {
    parse_spec("471 "@ + channel + " :Cannot join channel (+l)"@)
}

/// Error 471: the channel has reached its member limit.
pub fn err_channel_is_full(channel: String) -> (r: Message)
    ensures
        r@ == err_channel_is_full_v(channel@),
{
    let line = concat("471 ", channel.as_str());
    let line = concat(line.as_str(), " :Cannot join channel (+l)");
    parse_line(line.as_str())
}

/// The content of reply 367: one ban mask of the channel.
pub open spec fn rpl_banlist_v(channel: Seq<char>, ban_mask: Seq<char>) -> MessageView {
    parse_spec("367 "@ + channel + " "@ + ban_mask)
}

/// Reply 367: one ban mask of the channel.
pub fn rpl_banlist(channel: String, ban_mask: String) -> (r: Message)
    ensures
        r@ == rpl_banlist_v(channel@, ban_mask@),
{
    let line = concat("367 ", channel.as_str());
    let line = concat(line.as_str(), " ");
    let line = concat(line.as_str(), ban_mask.as_str());
    parse_line(line.as_str())
}

/// The content of reply 368: end of the ban list.
pub open spec fn rpl_end_of_ban_list_v(channel: Seq<char>) -> MessageView {
    parse_spec("368 "@ + channel + " :End of channel ban list"@)
}

/// Reply 368: end of the ban list.
pub fn rpl_end_of_ban_list(channel: String) -> (r: Message)
    ensures
        r@ == rpl_end_of_ban_list_v(channel@),
{
    let line = concat("368 ", channel.as_str());
    let line = concat(line.as_str(), " :End of channel ban list");
    parse_line(line.as_str())
}

/// The content of error 467: the channel key is already set.
pub open spec fn err_key_set_v(channel: Seq<char>) -> MessageView {
    parse_spec("467 "@ + channel + " ::Channel key already set"@)
}

/// Error 467: the channel key is already set.
pub fn err_key_set(channel: String) -> (r: Message)
    ensures
        r@ == err_key_set_v(channel@),
{
    let line = concat("467 ", channel.as_str());
    let line = concat(line.as_str(), " ::Channel key already set");
    parse_line(line.as_str())
}

/// The content of error 473: the channel is invite-only.
pub open spec fn err_invite_only_chan_v(channel: Seq<char>) -> MessageView {
    parse_spec("473 "@ + channel + " :Cannot join channel (+i)"@)
}

/// Error 473: the channel is invite-only.
pub fn err_invite_only_chan(channel: String) -> (r: Message)
    ensures
        r@ == err_invite_only_chan_v(channel@),
{
    let line = concat("473 ", channel.as_str());
    let line = concat(line.as_str(), " :Cannot join channel (+i)");
    parse_line(line.as_str())
}

/// The content of error 474: the sender is banned from the channel.
pub open spec fn err_banned_from_chan_v(channel: Seq<char>) -> MessageView {
    parse_spec("474 "@ + channel + " :Cannot join channel (+b)"@)
}

/// Error 474: the sender is banned from the channel.
pub fn err_banned_from_chan(channel: String) -> (r: Message)
    ensures
        r@ == err_banned_from_chan_v(channel@),
{
    let line = concat("474 ", channel.as_str());
    let line = concat(line.as_str(), " :Cannot join channel (+b)");
    parse_line(line.as_str())
}

/// The content of error 475: the key given does not match.
pub open spec fn err_bad_channel_key_v(channel: Seq<char>) -> MessageView {
    parse_spec("475 "@ + channel + " :Cannot join channel (+k)"@)
}

/// Error 475: the key given does not match.
pub fn err_bad_channel_key(channel: String) -> (r: Message)
    ensures
        r@ == err_bad_channel_key_v(channel@),
{
    let line = concat("475 ", channel.as_str());
    let line = concat(line.as_str(), " :Cannot join channel (+k)");
    parse_line(line.as_str())
}

/// The content of error 481: the sender is not a server operator.
pub open spec fn err_no_privileges_v() -> MessageView {
    parse_spec("481 :Permission Denied- You're not an IRC operator"@)
}

/// Error 481: the sender is not a server operator.
pub fn err_no_privileges() -> (r: Message)
    ensures
        r@ == err_no_privileges_v(),
{
    parse_line("481 :Permission Denied- You're not an IRC operator")
}
/// The nicknames, each preceded by `sep`.
pub open spec fn prefixed_join(ns: Seq<Seq<char>>, sep: Seq<char>) -> Seq<char>
    decreases ns.len(),
{
    if ns.len() == 0 {
        Seq::empty()
    } else {
        prefixed_join(ns.drop_last(), sep) + sep + ns.last()
    }
}

/// The content of reply 353 for the given members.
pub open spec fn rpl_name_rply_v(channel: Seq<char>, nicks: Seq<Seq<char>>) -> MessageView {
    parse_spec("353 "@ + channel + " :"@ + prefixed_join(nicks, " "@))
}

/// Reply 353: the members of a channel, each preceded by a space.
pub fn rpl_name_rply(channel: String, nicks: Vec<String>) -> (r: Message)
    ensures
        r@ == rpl_name_rply_v(channel@, crate::message::strings_view(nicks@)),
{
    let mut line = concat("353 ", channel.as_str());
    line.append(" :");
    let ghost head = line@;
    let mut i: usize = 0;
    while i < nicks.len()
        invariant
            i <= nicks@.len(),
            line@ == head + prefixed_join(crate::message::strings_view(nicks@).take(i as int), " "@),
        decreases nicks@.len() - i,
    {
        let ghost before = line@;
        line.append(" ");
        line.append(nicks[i].as_str());
        let ghost ns = crate::message::strings_view(nicks@);
        assert(ns.take(i + 1).drop_last() =~= ns.take(i as int));
        assert(line@ =~= before + " "@ + ns.take(i + 1).last());
        i = i + 1;
    }
    assert(crate::message::strings_view(nicks@).take(nicks@.len() as int) =~= crate::message::strings_view(nicks@));
    parse_line(line.as_str())
}

/// The content of error 472 for the given letter.
pub open spec fn err_unknown_mode_v(mode: char) -> MessageView {
    parse_spec("472 "@ + seq![mode] + " :is unknown mode char to me"@)
}

/// Error 472: the mode letter is not known.
pub fn err_unknown_mode(mode: char) -> (r: Message)
    ensures
        r@ == err_unknown_mode_v(mode),
{
    let mut line = String::from_str("472 ");
    push_char(&mut line, mode);
    line.append(" :is unknown mode char to me");
    assert(line@ =~= "472 "@ + seq![mode] + " :is unknown mode char to me"@);
    parse_line(line.as_str())
}

} // verus!
