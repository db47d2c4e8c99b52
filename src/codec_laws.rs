use vstd::prelude::*;
use crate::message::{
    MessageView, mview, parse_spec, parse_from, prefix_from, command_from, params_from, marshal_spec,
    join_params, encode_param,
};

verus! {

/// A message that its written line reads back as: a prefix without spaces; a
/// nonempty command without spaces that does not start with `:`; nonempty
/// parameters, all but the last without spaces and not starting with `:`.
pub open spec fn well_formed(m: MessageView) -> bool {
    &&& (m.prefix is Some ==> !m.prefix->0.contains(' '))
    &&& m.command.len() > 0
    &&& !m.command.contains(' ')
    &&& m.command[0] != ':'
    &&& forall|i: int| 0 <= i < m.parameters.len() ==> (#[trigger] m.parameters[i]).len() > 0
            && (i < m.parameters.len() - 1 ==> !m.parameters[i].contains(' ') && m.parameters[i][0] != ':')
}

proof fn lemma_tail(s: Seq<char>, k: int, x: Seq<char>)
    requires
        0 <= k <= s.len(),
        s.subrange(k, s.len() as int) == x,
    ensures
        s.len() == k + x.len(),
        forall|i: int| 0 <= i < x.len() ==> s[k + i] == #[trigger] x[i],
{
    assert forall|i: int| 0 <= i < x.len() implies s[k + i] == #[trigger] x[i] by {
        assert(s.subrange(k, s.len() as int)[i] == s[k + i]);
    }
}

proof fn lemma_tail_split(s: Seq<char>, k: int, a: Seq<char>, b: Seq<char>)
    requires
        0 <= k <= s.len(),
        s.subrange(k, s.len() as int) == a + b,
    ensures
        s.subrange(k + a.len(), s.len() as int) == b,
{
    lemma_tail(s, k, a + b);
    assert forall|i: int| 0 <= i < b.len() implies s.subrange(k + a.len(), s.len() as int)[i] == b[i] by {
        assert((a + b)[a.len() + i] == b[i]);
    }
    assert(s.subrange(k + a.len(), s.len() as int) =~= b);
}

proof fn lemma_plain_run(s: Seq<char>, k: int, n: int, cur: Seq<char>, acc: Seq<Seq<char>>)
    requires
        0 <= k,
        0 <= n,
        k + n <= s.len(),
        forall|j: int| k <= j < k + n ==> s[j] != ' ',
        n > 0 && cur.len() == 0 ==> s[k] != ':',
    ensures
        params_from(s, k, cur, false, acc) == params_from(s, k + n, cur + s.subrange(k, k + n), false, acc),
    decreases n,
{
    if n == 0 {
        assert(cur + s.subrange(k, k) =~= cur);
    } else {
        lemma_plain_run(s, k + 1, n - 1, cur.push(s[k]), acc);
        assert(cur.push(s[k]) + s.subrange(k + 1, k + n) =~= cur + s.subrange(k, k + n));
    }
}

proof fn lemma_colon_run(s: Seq<char>, k: int, n: int, cur: Seq<char>, acc: Seq<Seq<char>>)
    requires
        0 <= k,
        0 <= n,
        k + n <= s.len(),
    ensures
        params_from(s, k, cur, true, acc) == params_from(s, k + n, cur + s.subrange(k, k + n), true, acc),
    decreases n,
{
    if n == 0 {
        assert(cur + s.subrange(k, k) =~= cur);
    } else {
        lemma_colon_run(s, k + 1, n - 1, cur.push(s[k]), acc);
        assert(cur.push(s[k]) + s.subrange(k + 1, k + n) =~= cur + s.subrange(k, k + n));
    }
}

proof fn lemma_join_first(ps: Seq<Seq<char>>)
    requires
        ps.len() >= 2,
    ensures
        join_params(ps) == encode_param(ps[0]) + seq![' '] + join_params(ps.drop_first()),
    decreases ps.len(),
{
    if ps.len() == 2 {
        assert(ps.drop_last() =~= seq![ps[0]]);
        assert(ps.drop_first() =~= seq![ps[1]]);
        assert(join_params(ps.drop_last()) == encode_param(ps[0]));
        assert(join_params(ps.drop_first()) == encode_param(ps[1]));
    } else {
        let dl = ps.drop_last();
        let df = ps.drop_first();
        lemma_join_first(dl);
        assert(dl.drop_first() =~= df.drop_last());
        assert(df.last() == ps.last());
        assert(dl[0] == ps[0]);
        assert(join_params(df) == join_params(df.drop_last()) + seq![' '] + encode_param(df.last()));
        assert(join_params(ps) == join_params(dl) + seq![' '] + encode_param(ps.last()));
        assert(join_params(ps) =~= encode_param(ps[0]) + seq![' '] + join_params(df));
    }
}

proof fn lemma_params_read_back(s: Seq<char>, k: int, ps: Seq<Seq<char>>, acc: Seq<Seq<char>>)
    requires
        0 <= k <= s.len(),
        s.subrange(k, s.len() as int) == join_params(ps),
        forall|i: int| 0 <= i < ps.len() ==> (#[trigger] ps[i]).len() > 0
            && (i < ps.len() - 1 ==> !ps[i].contains(' ') && ps[i][0] != ':'),
    ensures
        params_from(s, k, Seq::empty(), false, acc) == acc + ps,
    decreases ps.len(),
{
    if ps.len() == 0 {
        assert(s.subrange(k, s.len() as int).len() == 0);
        assert(acc + ps =~= acc);
    } else if ps.len() == 1 {
        let t = ps[0];
        assert(acc + ps =~= acc.push(t));
        if crate::message::needs_colon(t) {
            assert(s.subrange(k, s.len() as int) == seq![':'] + t);
            lemma_tail(s, k, seq![':'] + t);
            assert(s[k + 0] == (seq![':'] + t)[0]);
            assert(s[k] == ':');
            lemma_tail_split(s, k, seq![':'], t);
            lemma_colon_run(s, k + 1, t.len() as int, Seq::empty(), acc);
            assert(s.subrange(k + 1, k + 1 + t.len()) =~= s.subrange(k + 1, s.len() as int));
            assert(Seq::<char>::empty() + t =~= t);
        } else {
            assert(s.subrange(k, s.len() as int) == t);
            lemma_tail(s, k, t);
            assert(s[k + 0] == t[0]);
            assert forall|j: int| k <= j < k + t.len() implies s[j] != ' ' by {
                assert(s[k + (j - k)] == t[j - k]);
                if s[j] == ' ' { assert(t.contains(' ')); }
            }
            lemma_plain_run(s, k, t.len() as int, Seq::empty(), acc);
            assert(s.subrange(k, k + t.len()) =~= t);
        }
    } else {
        let t = ps[0];
        lemma_join_first(ps);
        assert(!t.contains(' ') && t[0] != ':');
        assert(encode_param(t) == t);
        let rest = join_params(ps.drop_first());
        assert(s.subrange(k, s.len() as int) == t + seq![' '] + rest);
        lemma_tail(s, k, t + seq![' '] + rest);
        assert(s[k + 0] == (t + seq![' '] + rest)[0]);
        assert forall|j: int| k <= j < k + t.len() implies s[j] != ' ' by {
            assert(s[k + (j - k)] == (t + seq![' '] + rest)[j - k]);
            assert(s[j] == t[j - k]);
            if s[j] == ' ' { assert(t.contains(' ')); }
        }
        lemma_plain_run(s, k, t.len() as int, Seq::empty(), acc);
        assert(s.subrange(k, k + t.len()) =~= t);
        assert(s[k + t.len()] == (t + seq![' '] + rest)[t.len() as int]);
        assert(s[k + t.len()] == ' ');
        assert(Seq::<char>::empty() + t =~= t);
        assert(params_from(s, k + t.len(), t, false, acc) == params_from(s, k + t.len() + 1, Seq::empty(), false, acc.push(t)));
        assert(t + seq![' '] + rest =~= (t + seq![' ']) + rest);
        lemma_tail_split(s, k, t + seq![' '], rest);
        lemma_params_read_back(s, k + t.len() + 1, ps.drop_first(), acc.push(t));
        assert(acc.push(t) + ps.drop_first() =~= acc + ps);
    }
}

proof fn lemma_command_run(s: Seq<char>, k: int, n: int, pre: Option<Seq<char>>, cur: Seq<char>)
    requires
        0 <= k,
        0 <= n,
        k + n <= s.len(),
        k + n < s.len() ==> s[k + n] == ' ',
        forall|j: int| k <= j < k + n ==> s[j] != ' ',
    ensures
        command_from(s, k, pre, cur) == mview(pre, cur + s.subrange(k, k + n),
            if k + n < s.len() { params_from(s, k + n + 1, Seq::empty(), false, Seq::empty()) } else { Seq::empty() }),
    decreases n,
{
    if n == 0 {
        assert(cur + s.subrange(k, k) =~= cur);
    } else {
        lemma_command_run(s, k + 1, n - 1, pre, cur.push(s[k]));
        assert(cur.push(s[k]) + s.subrange(k + 1, k + n) =~= cur + s.subrange(k, k + n));
    }
}

proof fn lemma_prefix_run(s: Seq<char>, k: int, n: int, cur: Seq<char>)
    requires
        0 <= k,
        0 <= n,
        k + n < s.len(),
        s[k + n] == ' ',
        forall|j: int| k <= j < k + n ==> s[j] != ' ',
    ensures
        prefix_from(s, k, cur) == parse_from(s, k + n + 1, Some(cur + s.subrange(k, k + n))),
    decreases n,
{
    if n == 0 {
        assert(cur + s.subrange(k, k) =~= cur);
    } else {
        lemma_prefix_run(s, k + 1, n - 1, cur.push(s[k]));
        assert(cur.push(s[k]) + s.subrange(k + 1, k + n) =~= cur + s.subrange(k, k + n));
    }
}

proof fn lemma_from_command(s: Seq<char>, j: int, pre: Option<Seq<char>>, m: MessageView)
    requires
        well_formed(m),
        0 <= j <= s.len(),
        s.subrange(j, s.len() as int) == m.command + (if m.parameters.len() == 0 { Seq::empty() } else { seq![' '] + join_params(m.parameters) }),
    ensures
        parse_from(s, j, pre) == mview(pre, m.command, m.parameters),
{
    let c = m.command;
    let rest = if m.parameters.len() == 0 { Seq::<char>::empty() } else { seq![' '] + join_params(m.parameters) };
    let tail = s.subrange(j, s.len() as int);
    lemma_tail(s, j, tail);
    assert(s[j + 0] == tail[0]);
    assert(s[j] == c[0]);
    assert forall|x: int| j + 1 <= x < j + c.len() implies s[x] != ' ' by {
        assert(s[j + (x - j)] == tail[x - j]);
        assert(s[x] == c[x - j]);
        if s[x] == ' ' { assert(c.contains(' ')); }
    }
    if m.parameters.len() > 0 {
        assert(s[j + c.len()] == tail[c.len() as int]);
    } else {
        assert(tail =~= c);
    }
    lemma_command_run(s, j + 1, c.len() - 1, pre, seq![s[j]]);
    assert(seq![s[j]] + s.subrange(j + 1, j + c.len()) =~= c) by {
        assert forall|x: int| 0 <= x < c.len() implies (seq![s[j]] + s.subrange(j + 1, j + c.len()))[x] == c[x] by {
            if x > 0 { assert(s[j + x] == tail[x]); assert(s.subrange(j + 1, j + c.len())[x - 1] == s[j + 1 + (x - 1)]); }
        }
    }
    if m.parameters.len() > 0 {
        assert(c + rest =~= (c + seq![' ']) + join_params(m.parameters));
        lemma_tail_split(s, j, c + seq![' '], join_params(m.parameters));
        lemma_params_read_back(s, j + c.len() + 1, m.parameters, Seq::empty());
        assert(Seq::<Seq<char>>::empty() + m.parameters =~= m.parameters);
    } else {
        assert(m.parameters =~= Seq::<Seq<char>>::empty());
    }
}

/// Reading back the line a well-formed message is written as gives the message.
pub proof fn lemma_marshal_parse_round_trip(m: MessageView)
    requires
        well_formed(m),
    ensures
        parse_spec(marshal_spec(m)) == m,
{
    let s = marshal_spec(m);
    let body = m.command + (if m.parameters.len() == 0 { Seq::empty() } else { seq![' '] + join_params(m.parameters) });
    match m.prefix {
        Some(p) => {
            assert(s =~= seq![':'] + p + seq![' '] + body);
            assert(s[0] == ':');
            assert forall|x: int| 1 <= x < 1 + p.len() implies s[x] != ' ' by {
                assert(s[x] == p[x - 1]);
                if s[x] == ' ' { assert(p.contains(' ')); }
            }
            lemma_prefix_run(s, 1, p.len() as int, Seq::empty());
            assert(Seq::<char>::empty() + s.subrange(1, 1 + p.len() as int) =~= p);
            assert(s.subrange(p.len() as int + 2, s.len() as int) =~= body);
            lemma_from_command(s, p.len() as int + 2, Some(p), m);
        },
        None => {
            assert(s =~= body);
            assert(s[0] == m.command[0]);
            assert(s.subrange(0, s.len() as int) =~= body);
            lemma_from_command(s, 0, None, m);
        },
    }
}

} // verus!
