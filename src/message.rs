use vstd::prelude::*;
use crate::text::{chars_of, push_char, contains_char};
use vstd::string::StringExecFns;

verus! {

/// Reports that a line or a name does not have the required shape.
#[derive(Debug)]
pub struct InvalidMessageError {
    pub error_message: String,
}

/// One protocol line: an optional prefix, a command and its parameters.
#[derive(Debug, Clone)]
pub struct Message {
    pub prefix: Option<String>,
    pub command: String,
    pub parameters: Vec<String>,
}

/// The abstract content of a [`Message`].
pub struct MessageView {
    pub prefix: Option<Seq<char>>,
    pub command: Seq<char>,
    pub parameters: Seq<Seq<char>>,
}

pub open spec fn opt_view(o: Option<String>) -> Option<Seq<char>> {
    match o {
        Some(s) => Some(s@),
        None => None,
    }
}

pub open spec fn strings_view(v: Seq<String>) -> Seq<Seq<char>> {
    v.map_values(|s: String| s@)
}

impl View for Message {
    type V = MessageView;

    open spec fn view(&self) -> MessageView {
        MessageView {
            prefix: opt_view(self.prefix),
            command: self.command@,
            parameters: strings_view(self.parameters@),
        }
    }
}

pub open spec fn mview(
    prefix: Option<Seq<char>>,
    command: Seq<char>,
    parameters: Seq<Seq<char>>,
) -> MessageView {
    MessageView { prefix, command, parameters }
}

/// Scanning a line from position `k`, before the command: a `:` opens a prefix
/// (a later prefix replaces an earlier one), anything else starts the command.
pub open spec fn parse_from(s: Seq<char>, k: int, prefix: Option<Seq<char>>) -> MessageView
    decreases s.len() - k, 0int,
{
    if k >= s.len() || k < 0 {
        mview(prefix, Seq::empty(), Seq::empty())
    } else if s[k] == ':' {
        prefix_from(s, k + 1, Seq::empty())
    } else {
        command_from(s, k + 1, prefix, seq![s[k]])
    }
}

/// Scanning a prefix whose characters so far are `cur`; a space ends it.
pub open spec fn prefix_from(s: Seq<char>, k: int, cur: Seq<char>) -> MessageView
    decreases s.len() - k, 1int,
{
    if k >= s.len() || k < 0 {
        mview(Some(cur), Seq::empty(), Seq::empty())
    } else if s[k] == ' ' {
        parse_from(s, k + 1, Some(cur))
    } else {
        prefix_from(s, k + 1, cur.push(s[k]))
    }
}

/// Scanning the command whose characters so far are `cur`; a space ends it.
pub open spec fn command_from(s: Seq<char>, k: int, prefix: Option<Seq<char>>, cur: Seq<char>) -> MessageView
    decreases s.len() - k, 1int,
{
    if k >= s.len() || k < 0 {
        mview(prefix, cur, Seq::empty())
    } else if s[k] == ' ' {
        mview(prefix, cur, params_from(s, k + 1, Seq::empty(), false, Seq::empty()))
    } else {
        command_from(s, k + 1, prefix, cur.push(s[k]))
    }
}

/// Scanning parameters: `acc` holds those already read, `cur` the one being read,
/// `trailing` whether it is the trailing parameter. A `:` that opens a parameter
/// is dropped and makes it the trailing one, which takes the rest of the line
/// verbatim; otherwise a space ends a parameter, and an empty parameter ends the
/// list.
pub open spec fn params_from(s: Seq<char>, k: int, cur: Seq<char>, trailing: bool, acc: Seq<Seq<char>>) -> Seq<Seq<char>>
    decreases s.len() - k,
{
    if k >= s.len() || k < 0 {
        if cur.len() == 0 { acc } else { acc.push(cur) }
    } else if trailing {
        params_from(s, k + 1, cur.push(s[k]), true, acc)
    } else if s[k] == ' ' {
        if cur.len() == 0 {
            acc
        } else {
            params_from(s, k + 1, Seq::empty(), false, acc.push(cur))
        }
    } else if s[k] == ':' && cur.len() == 0 {
        params_from(s, k + 1, cur, true, acc)
    } else {
        params_from(s, k + 1, cur.push(s[k]), false, acc)
    }
}

/// The message that a line reads as.
pub open spec fn parse_spec(s: Seq<char>) -> MessageView {
    parse_from(s, 0, None)
}

/// Whether a parameter must be written as the trailing one: it holds a space
/// or starts with `:`.
pub open spec fn needs_colon(p: Seq<char>) -> bool {
    p.contains(' ') || (p.len() > 0 && p[0] == ':')
}

/// A parameter as written on the wire: one that must be trailing gets a
/// leading `:`.
pub open spec fn encode_param(p: Seq<char>) -> Seq<char> {
    if needs_colon(p) { seq![':'] + p } else { p }
}

/// The parameters as written on the wire, separated by single spaces.
pub open spec fn join_params(ps: Seq<Seq<char>>) -> Seq<char>
    decreases ps.len(),
{
    if ps.len() == 0 {
        Seq::empty()
    } else if ps.len() == 1 {
        encode_param(ps[0])
    } else {
        join_params(ps.drop_last()) + seq![' '] + encode_param(ps.last())
    }
}

/// The line that a message is written as.
pub open spec fn marshal_spec(m: MessageView) -> Seq<char> {
    let head = match m.prefix {
        Some(p) => seq![':'] + p + seq![' '],
        None => Seq::empty(),
    };
    head + m.command + (if m.parameters.len() == 0 { Seq::empty() } else { seq![' '] + join_params(m.parameters) })
}

/// Reads a prefix starting at `k`; returns it and the position where scanning resumes.
fn get_prefix(s: &Vec<char>, k: usize) -> (r: (String, usize))
    requires
        k <= s@.len(),
    ensures
        r.1 <= s@.len(),
        r.1 > k || r.1 == s@.len(),
        prefix_from(s@, k as int, Seq::empty()) == parse_from(s@, r.1 as int, Some(r.0@)),
{
    let mut cur = String::new();
    let mut i: usize = k;
    while i < s.len()
        invariant
            k <= i <= s@.len(),
            prefix_from(s@, k as int, Seq::empty()) == prefix_from(s@, i as int, cur@),
        decreases s@.len() - i,
    {
        if s[i] == ' ' {
            return (cur, i + 1);
        }
        push_char(&mut cur, s[i]);
        i = i + 1;
    }
    (cur, i)
}

/// Reads a command whose first character is `s[k - 1]`; returns it and the position
/// where the parameters start.
fn get_command(s: &Vec<char>, k: usize, prefix: &Option<String>) -> (r: (String, usize))
    requires
        1 <= k <= s@.len(),
    ensures
        r.1 <= s@.len(),
        command_from(s@, k as int, opt_view(*prefix), seq![s@[k - 1]])
            == mview(opt_view(*prefix), r.0@, params_from(s@, r.1 as int, Seq::empty(), false, Seq::empty())),
{
    let mut cur = String::new();
    push_char(&mut cur, s[k - 1]);
    let mut i: usize = k;
    while i < s.len()
        invariant
            k <= i <= s@.len(),
            command_from(s@, k as int, opt_view(*prefix), seq![s@[k - 1]])
                == command_from(s@, i as int, opt_view(*prefix), cur@),
        decreases s@.len() - i,
    {
        if s[i] == ' ' {
            return (cur, i + 1);
        }
        push_char(&mut cur, s[i]);
        i = i + 1;
    }
    (cur, i)
}

/// Reads the parameters that start at `k`.
fn get_parameters(s: &Vec<char>, k: usize) -> (r: Vec<String>)
    requires
        k <= s@.len(),
    ensures
        strings_view(r@) == params_from(s@, k as int, Seq::empty(), false, Seq::empty()),
{
    let mut acc: Vec<String> = Vec::new();
    let mut cur = String::new();
    let mut colon = false;
    let mut i: usize = k;
    assert(strings_view(acc@) =~= Seq::<Seq<char>>::empty());
    while i < s.len()
        invariant
            k <= i <= s@.len(),
            params_from(s@, k as int, Seq::empty(), false, Seq::empty())
                == params_from(s@, i as int, cur@, colon, strings_view(acc@)),
        decreases s@.len() - i,
    {
        let c = s[i];
        if colon {
            push_char(&mut cur, c);
        } else if c == ' ' {
            if cur.as_str().is_empty() {
                return acc;
            }
            let ghost old_acc = acc@;
            acc.push(cur);
            assert(strings_view(acc@) =~= strings_view(old_acc).push(cur@));
            cur = String::new();
            colon = false;
        } else if c == ':' && cur.as_str().is_empty() {
            colon = true;
        } else {
            push_char(&mut cur, c);
        }
        i = i + 1;
    }
    if !cur.as_str().is_empty() {
        let ghost old_acc = acc@;
        acc.push(cur);
        assert(strings_view(acc@) =~= strings_view(old_acc).push(cur@));
    }
    acc
}

/// Reads one line: an optional `:`-prefix up to a space, the command up to the
/// next space, then the parameters (see [`params_from`]).
pub fn parse_line(line: &str) -> (r: Message)
    ensures
        r@ == parse_spec(line@),
{
    let s = chars_of(line);
    let mut prefix: Option<String> = None;
    let mut k: usize = 0;
    while k < s.len()
        invariant
            k <= s@.len(),
            s@ == line@,
            parse_spec(line@) == parse_from(s@, k as int, opt_view(prefix)),
        decreases s@.len() - k,
    {
        if s[k] == ':' {
            let (p, next) = get_prefix(&s, k + 1);
            prefix = Some(p);
            k = next;
        } else {
            let (command, next) = get_command(&s, k + 1, &prefix);
            let parameters = get_parameters(&s, next);
            return Message { prefix, command, parameters };
        }
    }
    let r = Message { prefix, command: String::new(), parameters: Vec::new() };
    assert(r@.parameters =~= Seq::<Seq<char>>::empty());
    r
}

impl Message {
    /// Writes the message as one line: `:prefix ` if present, the command, then
    /// each parameter after a single space, the one that holds a space or starts
    /// with `:` introduced by `:`.
    pub fn marshal(&self) -> (r: String)
        ensures
            r@ == marshal_spec(self@),
    {
        let mut line = String::new();
        match &self.prefix {
            Some(p) => {
                line.append(":");
                line.append(p.as_str());
                line.append(" ");
            },
            None => {},
        }
        line.append(self.command.as_str());
        let ghost head = line@;
        let n = self.parameters.len();
        let mut i: usize = 0;
        while i < n
            invariant
                n == self.parameters@.len(),
                i <= n,
                i == 0 ==> line@ == head,
                i > 0 ==> line@ == head + seq![' '] + join_params(strings_view(self.parameters@).take(i as int)),
            decreases n - i,
        {
            let param = &self.parameters[i];
            let ghost ps = strings_view(self.parameters@);
            let ghost before = line@;
            proof {
                reveal_strlit(":");
                reveal_strlit(" ");
            }
            line.append(" ");
            let pc = chars_of(param.as_str());
            if contains_char(param.as_str(), ' ') || (pc.len() > 0 && pc[0] == ':') {
                line.append(":");
            }
            line.append(param.as_str());
            assert(ps.take(i + 1).drop_last() =~= ps.take(i as int));
            assert(ps.take(i + 1).last() == param@);
            if i == 0 {
                assert(ps.take(1) =~= seq![param@]);
                assert(line@ =~= head + seq![' '] + encode_param(param@));
            } else {
                assert(line@ =~= before + seq![' '] + encode_param(param@));
            }
            i = i + 1;
        }
        assert(strings_view(self.parameters@).take(n as int) =~= strings_view(self.parameters@));
        assert(n == 0 ==> line@ =~= head + Seq::<char>::empty());
        proof {
            reveal_strlit(":");
            reveal_strlit(" ");
        }
        line
    }
}

/// A copy of each string of `v`.
pub fn copy_strings(v: &Vec<String>) -> (r: Vec<String>)
    ensures
        strings_view(r@) == strings_view(v@),
{
    let mut r: Vec<String> = Vec::new();
    let mut i: usize = 0;
    while i < v.len()
        invariant
            i <= v@.len(),
            strings_view(r@) == strings_view(v@).take(i as int),
        decreases v@.len() - i,
    {
        let ghost before = r@;
        r.push(v[i].clone());
        assert(strings_view(r@) =~= strings_view(before).push(v@[i as int]@));
        assert(strings_view(v@).take(i + 1) =~= strings_view(v@).take(i as int).push(v@[i as int]@));
        i = i + 1;
    }
    assert(strings_view(v@).take(v@.len() as int) =~= strings_view(v@));
    r
}

impl Message {
    /// A copy of the message with the same content.
    pub fn duplicate(&self) -> (r: Message)
        ensures
            r@ == self@,
    {
        let prefix = match &self.prefix {
            Some(p) => Some(p.clone()),
            None => None,
        };
        Message { prefix, command: self.command.clone(), parameters: copy_strings(&self.parameters) }
    }
}

impl From<String> for Message {
    /// Reads the line held by the string.
    fn from(line: String) -> (r: Message)
        ensures
            r@ == parse_spec(line@),
    {
        parse_line(line.as_str())
    }
}

impl From<Message> for String {
    /// Writes the message as one line (see [`Message::marshal`]).
    fn from(message: Message) -> (r: String)
        ensures
            r@ == marshal_spec(message@),
    {
        message.marshal()
    }
}

impl vstd::std_specs::convert::FromSpecImpl<Message> for String {
    open spec fn obeys_from_spec() -> bool {
        false
    }

    open spec fn from_spec(message: Message) -> String {
        arbitrary()
    }
}

impl vstd::std_specs::convert::FromSpecImpl<String> for Message {
    open spec fn obeys_from_spec() -> bool {
        false
    }

    open spec fn from_spec(line: String) -> Message {
        arbitrary()
    }
}

} // verus!
