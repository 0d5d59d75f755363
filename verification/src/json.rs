//! Strings in JSON.

use crate::text::digit;
use vstd::prelude::*;

verus! {

/// What stands for the character `c` inside a JSON string.
pub open spec fn escaped(c: char) -> Seq<char> {
    let n = c as nat;
    if c == '"' {
        seq!['\\', '"']
    } else if c == '\\' {
        seq!['\\', '\\']
    } else if n == 0x8 {
        seq!['\\', 'b']
    } else if n == 0x9 {
        seq!['\\', 't']
    } else if n == 0xa {
        seq!['\\', 'n']
    } else if n == 0xc {
        seq!['\\', 'f']
    } else if n == 0xd {
        seq!['\\', 'r']
    } else if n < 0x20 {
        seq!['\\', 'u', '0', '0', digit(n / 16), digit(n % 16)]
    } else {
        seq![c]
    }
}

/// What stands for `text` between the quotes of a JSON string.
pub open spec fn escaped_text(text: Seq<char>) -> Seq<char>
    decreases text.len(),
{
    if text.len() == 0 {
        seq![]
    } else {
        escaped(text[0]) + escaped_text(text.skip(1))
    }
}

/// `text` as a JSON string.
pub open spec fn json_string(text: Seq<char>) -> Seq<char> {
    seq!['"'] + escaped_text(text) + seq!['"']
}

/// `serde_json::to_string` on a string: the string in quotes, with quotes, backslashes and
/// control characters escaped and everything else as it is. Writing a string into memory does not
/// fail; an error would be given by its message.
#[verifier::external_body]
pub(crate) fn quote(text: &str) -> (r: Result<String, String>)
    ensures
        r is Ok,
        r->Ok_0@ == json_string(text@),
{
    serde_json::to_string(text).map_err(|e| e.to_string())
}

/// A member of a JSON object: its name, and its value as JSON.
pub struct Member {
    /// The name.
    pub name: &'static str,
    /// The value, as JSON.
    pub value: String,
}

/// A member of a JSON object, as it is written: the name, a colon and the value.
pub open spec fn member_text(member: (Seq<char>, Seq<char>)) -> Seq<char> {
    json_string(member.0) + ":"@ + member.1
}

/// Members of a JSON object, as they are written: with commas between them.
pub open spec fn members_text(members: Seq<(Seq<char>, Seq<char>)>) -> Seq<char>
    decreases members.len(),
{
    if members.len() == 0 {
        seq![]
    } else if members.len() == 1 {
        member_text(members[0])
    } else {
        members_text(members.drop_last()) + ","@ + member_text(members.last())
    }
}

/// A JSON object, as it is written: its members in braces.
pub open spec fn json_object(members: Seq<(Seq<char>, Seq<char>)>) -> Seq<char> {
    "{"@ + members_text(members) + "}"@
}

impl View for Member {
    type V = (Seq<char>, Seq<char>);

    open spec fn view(&self) -> (Seq<char>, Seq<char>) {
        (self.name@, self.value@)
    }
}

/// Writes a JSON object.
pub(crate) fn object(members: &Vec<Member>) -> (r: Result<String, String>)
    ensures
        r is Ok,
        r->Ok_0@ == json_object(members@.map_values(|m: Member| m@)),
{
    let mut text = String::new();
    let ghost views = members@.map_values(|m: Member| m@);
    text.append("{");
    let mut i: usize = 0;
    assert(text@ =~= "{"@ + members_text(views.take(0)));
    while i < members.len()
        invariant
            i <= members.len(),
            views == members@.map_values(|m: Member| m@),
            text@ == "{"@ + members_text(views.take(i as int)),
        decreases members.len() - i,
    {
        let ghost before = views.take(i as int);
        let ghost upto = views.take(i + 1);
        assert(upto.drop_last() =~= before);
        assert(upto.last() == members@[i as int]@);
        if i > 0 {
            text.append(",");
        }
        match quote(members[i].name) {
            Ok(name) => {
                text.append(name.as_str());
            },
            Err(e) => {
                return Err(e);
            },
        }
        text.append(":");
        text.append(members[i].value.as_str());
        i = i + 1;
        assert(text@ =~= "{"@ + members_text(upto));
    }
    assert(views.take(i as int) =~= views);
    text.append("}");
    Ok(text)
}

/// A JSON string shows where it ends, and different texts are written differently: if two JSON
/// strings, each with something behind it, are the same characters, then the texts are the same
/// and so is what stands behind.
pub proof fn law_self_delimiting(a: Seq<char>, x: Seq<char>, b: Seq<char>, y: Seq<char>)
    requires
        json_string(a) + x == json_string(b) + y,
    ensures
        a == b,
        x == y,
{
    let s = json_string(a) + x;
    let t = json_string(b) + y;
    assert(s.skip(1) =~= escaped_text(a) + (seq!['"'] + x));
    assert(t.skip(1) =~= escaped_text(b) + (seq!['"'] + y));
    lemma_closing_quote(a, x, b, y);
}

proof fn lemma_closing_quote(a: Seq<char>, x: Seq<char>, b: Seq<char>, y: Seq<char>)
    requires
        escaped_text(a) + (seq!['"'] + x) == escaped_text(b) + (seq!['"'] + y),
    ensures
        a == b,
        x == y,
    decreases a.len(),
{
    let s = escaped_text(a) + (seq!['"'] + x);
    let t = escaped_text(b) + (seq!['"'] + y);
    if a.len() == 0 && b.len() == 0 {
        assert(s.skip(1) =~= x);
        assert(t.skip(1) =~= y);
        assert(a =~= b);
    } else if a.len() == 0 {
        assert(s[0] == '"');
        assert(t[0] == escaped(b[0])[0]);
    } else if b.len() == 0 {
        assert(t[0] == '"');
        assert(s[0] == escaped(a[0])[0]);
    } else {
        let rest_a = escaped_text(a.skip(1)) + (seq!['"'] + x);
        let rest_b = escaped_text(b.skip(1)) + (seq!['"'] + y);
        assert(s =~= escaped(a[0]) + rest_a);
        assert(t =~= escaped(b[0]) + rest_b);
        lemma_prefix_free(a[0], rest_a, b[0], rest_b);
        assert(s.skip(escaped(a[0]).len() as int) =~= rest_a);
        assert(t.skip(escaped(b[0]).len() as int) =~= rest_b);
        lemma_closing_quote(a.skip(1), x, b.skip(1), y);
        assert(a =~= seq![a[0]] + a.skip(1));
        assert(b =~= seq![b[0]] + b.skip(1));
    }
}

proof fn lemma_prefix_free(c: char, x: Seq<char>, d: char, y: Seq<char>)
    requires
        escaped(c) + x == escaped(d) + y,
    ensures
        c == d,
{
    let s = escaped(c) + x;
    let t = escaped(d) + y;
    assert(s[0] == escaped(c)[0]);
    assert(t[0] == escaped(d)[0]);
    if s[0] == '\\' {
        assert(s[1] == escaped(c)[1]);
        assert(t[1] == escaped(d)[1]);
        if s[1] == 'u' {
            assert(s[4] == escaped(c)[4]);
            assert(t[4] == escaped(d)[4]);
            assert(s[5] == escaped(c)[5]);
            assert(t[5] == escaped(d)[5]);
            assert(c as nat == c as nat / 16 * 16 + c as nat % 16);
            assert(d as nat == d as nat / 16 * 16 + d as nat % 16);
        }
    }
}

/// How an object is written: its members in braces, each with its name as a string, a colon and its
/// value, and with a comma before each but the first.
pub proof fn law_object(members: Seq<(Seq<char>, Seq<char>)>, name: Seq<char>, value: Seq<char>)
    ensures
        json_object(members) == "{"@ + members_text(members) + "}"@,
        members_text(seq![]) == Seq::<char>::empty(),
        members_text(seq![(name, value)]) == json_string(name) + ":"@ + value,
        members.len() > 0 ==> members_text(members.push((name, value))) == members_text(members)
            + ","@ + (json_string(name) + ":"@ + value),
{
    assert(members.push((name, value)).drop_last() =~= members);
}

} // verus!
