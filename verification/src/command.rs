use vstd::prelude::*;
use vstd::string::StrSliceExecFns;
use vstd::string::StringExecFns;

use crate::digits::dec_digits;
use crate::digits::digit_char;
use crate::digits::u64_to_dec;

verus! {

/// The hexadecimal digit character for one value below sixteen, lower case.
pub open spec fn hex_char(d: nat) -> char
    recommends
        d < 16,
{
    if d < 10 {
        digit_char(d)
    } else if d == 10 {
        'a'
    } else if d == 11 {
        'b'
    } else if d == 12 {
        'c'
    } else if d == 13 {
        'd'
    } else if d == 14 {
        'e'
    } else {
        'f'
    }
}

/// How one character stands inside a JSON string literal: quotes and
/// backslashes carry an escape, the named control characters use their
/// short escapes, the other control characters a four-digit escape, and
/// every other character stands as itself.
pub open spec fn escape_char(c: char) -> Seq<char> {
    if c == '"' {
        seq!['\\', '"']
    } else if c == '\\' {
        seq!['\\', '\\']
    } else if c as u32 == 8 {
        seq!['\\', 'b']
    } else if c as u32 == 9 {
        seq!['\\', 't']
    } else if c as u32 == 10 {
        seq!['\\', 'n']
    } else if c as u32 == 12 {
        seq!['\\', 'f']
    } else if c as u32 == 13 {
        seq!['\\', 'r']
    } else if (c as u32) < 32 {
        let hi = hex_char((c as u32 / 16) as nat);
        let lo = hex_char((c as u32 % 16) as nat);
        seq!['\\', 'u', '0', '0', hi, lo]
    } else {
        seq![c]
    }
}

/// A character sequence as it stands inside a JSON string literal.
pub open spec fn json_escape(s: Seq<char>) -> Seq<char>
    decreases s.len(),
{
    if s.len() == 0 {
        Seq::empty()
    } else {
        escape_char(s[0]) + json_escape(s.drop_first())
    }
}

/// Escaping one more character appends that character's escape.
pub proof fn lemma_json_escape_push(s: Seq<char>, c: char)
    ensures
        json_escape(s.push(c)) == json_escape(s) + escape_char(c),
    decreases s.len(),
{
    if s.len() == 0 {
        assert(s.push(c)[0] == c);
        assert(s.push(c).drop_first() =~= Seq::<char>::empty());
        assert(json_escape(s.push(c)) =~= json_escape(s) + escape_char(c)) by {
            reveal_with_fuel(json_escape, 2);
        }
    } else {
        assert(s.push(c)[0] == s[0]);
        assert(s.push(c).drop_first() =~= s.drop_first().push(c));
        lemma_json_escape_push(s.drop_first(), c);
        assert(json_escape(s.push(c)) =~= json_escape(s) + escape_char(c));
    }
}

/// Relies on `String::push`: it appends exactly the one character.
#[verifier::external_body]
fn push_char(s: &mut String, c: char)
    ensures
        final(s)@ == old(s)@.push(c),
{
    s.push(c)
}

/// One lower-case hexadecimal digit character.
fn hex_char_of(d: u32) -> (c: char)
    requires
        d < 16,
    ensures
        c == hex_char(d as nat),
{
    if d == 0 {
        '0'
    } else if d == 1 {
        '1'
    } else if d == 2 {
        '2'
    } else if d == 3 {
        '3'
    } else if d == 4 {
        '4'
    } else if d == 5 {
        '5'
    } else if d == 6 {
        '6'
    } else if d == 7 {
        '7'
    } else if d == 8 {
        '8'
    } else if d == 9 {
        '9'
    } else if d == 10 {
        'a'
    } else if d == 11 {
        'b'
    } else if d == 12 {
        'c'
    } else if d == 13 {
        'd'
    } else if d == 14 {
        'e'
    } else {
        'f'
    }
}

/// Escapes a text for use inside a JSON string literal.
pub fn json_escape_str(s: &str) -> (r: String)
    ensures
        r@ == json_escape(s@),
{
    let n = s.unicode_len();
    let mut out = String::new();
    let mut i: usize = 0;
    while i < n
        invariant
            n == s@.len(),
            0 <= i <= n,
            out@ == json_escape(s@.subrange(0, i as int)),

        decreases n - i,
    {
        let c = s.get_char(i);
        proof {
            reveal_strlit("\\\"");
            reveal_strlit("\\\\");
            reveal_strlit("\\b");
            reveal_strlit("\\t");
            reveal_strlit("\\n");
            reveal_strlit("\\f");
            reveal_strlit("\\r");
            reveal_strlit("\\u00");
            lemma_json_escape_push(s@.subrange(0, i as int), c);
            assert(s@.subrange(0, i + 1) =~= s@.subrange(0, i as int).push(c));
        }
        let u = c as u32;
        if c == '"' {
            out.append("\\\"");
        } else if c == '\\' {
            out.append("\\\\");
        } else if u == 8 {
            out.append("\\b");
        } else if u == 9 {
            out.append("\\t");
        } else if u == 10 {
            out.append("\\n");
        } else if u == 12 {
            out.append("\\f");
        } else if u == 13 {
            out.append("\\r");
        } else if u < 32 {
            out.append("\\u00");
            push_char(&mut out, hex_char_of(u / 16));
            push_char(&mut out, hex_char_of(u % 16));
        } else {
            push_char(&mut out, c);
        }
        proof {
            assert(out@ =~= json_escape(s@.subrange(0, i + 1)));
        }
        i = i + 1;
    }
    proof {
        assert(s@.subrange(0, n as int) =~= s@);
    }
    out
}

/// The parameters of the one outbound request: the command line the server
/// is asked to run.
pub struct CommandParams {
    pub command_line: String,
}

/// The one outbound request of a session, in the wire protocol's shape.
pub struct Command {
    pub jsonrpc: String,
    pub id: u64,
    pub method: String,
    pub params: CommandParams,
}

/// Builds the outbound command for a command line: protocol version `2.0`,
/// the fixed request id of the single in-flight request, and the `sbt/exec`
/// method.
pub fn build_command(command_line: String) -> (c: Command)
    ensures
        c.jsonrpc@ == "2.0"@,
        c.id == 1,
        c.method@ == "sbt/exec"@,
        c.params.command_line == command_line,
{
    Command {
        jsonrpc: "2.0".to_owned(),
        id: 1,
        method: "sbt/exec".to_owned(),
        params: CommandParams { command_line },
    }
}

/// A text as a JSON string literal: quoted and escaped.
pub open spec fn json_string_of(s: Seq<char>) -> Seq<char> {
    "\""@ + json_escape(s) + "\""@
}

/// The serialized wire text of an outbound command.
pub open spec fn command_json(c: Command) -> Seq<char> {
    "{\"jsonrpc\":"@ + json_string_of(c.jsonrpc@) + ",\"id\":"@ + dec_digits(c.id as nat)
        + ",\"method\":"@ + json_string_of(c.method@) + ",\"params\":{\"commandLine\":"@
        + json_string_of(c.params.command_line@) + "}}"@
}

/// Appends a text to the output as a JSON string literal.
fn append_json_string(out: &mut String, s: &str)
    ensures
        final(out)@ == old(out)@ + json_string_of(s@),
{
    out.append("\"");
    let escaped = json_escape_str(s);
    out.append(escaped.as_str());
    out.append("\"");
    proof {
        assert(out@ =~= old(out)@ + json_string_of(s@));
    }
}

/// Serializes an outbound command to its wire text form.
pub fn serialize_command(c: &Command) -> (r: String)
    ensures
        r@ == command_json(*c),
{
    let mut out: String = "{\"jsonrpc\":".to_owned();
    append_json_string(&mut out, c.jsonrpc.as_str());
    out.append(",\"id\":");
    let id_digits = u64_to_dec(c.id);
    out.append(id_digits.as_str());
    out.append(",\"method\":");
    append_json_string(&mut out, c.method.as_str());
    out.append(",\"params\":{\"commandLine\":");
    append_json_string(&mut out, c.params.command_line.as_str());
    out.append("}}");
    proof {
        assert(out@ =~= command_json(*c));
    }
    out
}

} // verus!
