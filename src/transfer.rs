use vstd::prelude::*;
use vstd::string::StringExecFns;
use crate::text::{split_char, split_spec, strs, concat};
use crate::replies::prefixed_join;

verus! {

/// Whether a file name's last `.`-separated part is `zip`: the file is already
/// compressed and is sent as it is.
pub fn is_compressed(filename: String) -> (r: bool)
    ensures
        r == (split_spec(filename@, '.').last() == "zip"@),
{
    let parts = split_char(filename.as_str(), '.');
    proof {
        assert(split_spec(filename@, '.').len() > 0) by {
            lemma_split_nonempty(filename@, '.', 0, Seq::empty(), Seq::empty());
        }
    }
    let zip = String::from_str("zip");
    parts[parts.len() - 1] == zip
}

/// The name a received file is stored under: a name with one `.` keeps its
/// stem and gets the extension `zip`; any other name gets each of its
/// `.`-separated parts preceded by a `.`, then `.zip`.
pub fn change_file_extension(filename: String) -> (r: String)
    ensures
        ({
            let parts = split_spec(filename@, '.');
            r@ == (if parts.len() == 2 { parts[0] + ".zip"@ } else { prefixed_join(parts, "."@) + ".zip"@ })
        }),
{
    let parts = split_char(filename.as_str(), '.');
    if parts.len() == 2 {
        return concat(parts[0].as_str(), ".zip");
    }
    let mut name = String::new();
    let ghost ps = strs(parts@);
    let mut i: usize = 0;
    while i < parts.len()
        invariant
            i <= parts@.len(),
            ps == strs(parts@),
            name@ == prefixed_join(ps.take(i as int), "."@),
        decreases parts@.len() - i,
    {
        let ghost before = name@;
        name.append(".");
        name.append(parts[i].as_str());
        assert(ps.take(i + 1).drop_last() =~= ps.take(i as int));
        assert(name@ =~= before + "."@ + ps.take(i + 1).last());
        i = i + 1;
    }
    assert(ps.take(parts@.len() as int) =~= ps);
    name.append(".zip");
    name
}

proof fn lemma_split_nonempty(s: Seq<char>, c: char, k: int, cur: Seq<char>, acc: Seq<Seq<char>>)
    ensures
        crate::text::split_from(s, c, k, cur, acc).len() > acc.len(),
    decreases s.len() - k,
{
    if !(k >= s.len() || k < 0) {
        if s[k] == c {
            lemma_split_nonempty(s, c, k + 1, Seq::empty(), acc.push(cur));
        } else {
            lemma_split_nonempty(s, c, k + 1, cur.push(s[k]), acc);
        }
    }
}

} // verus!
