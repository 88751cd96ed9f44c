use crate::json::{jv, jv_arr, jv_obj, lemma_jv_arr, lemma_jv_obj, JsonV, JsonValue};
use crate::strutil::push_char;
use vstd::prelude::*;

verus! {

/// Hexadecimal digit for a value below 16.
pub open spec fn hex_digit(n: int) -> char {
    if n == 0 {
        '0'
    } else if n == 1 {
        '1'
    } else if n == 2 {
        '2'
    } else if n == 3 {
        '3'
    } else if n == 4 {
        '4'
    } else if n == 5 {
        '5'
    } else if n == 6 {
        '6'
    } else if n == 7 {
        '7'
    } else if n == 8 {
        '8'
    } else if n == 9 {
        '9'
    } else if n == 10 {
        'a'
    } else if n == 11 {
        'b'
    } else if n == 12 {
        'c'
    } else if n == 13 {
        'd'
    } else if n == 14 {
        'e'
    } else {
        'f'
    }
}

/// How one character of a JSON string is written: quotes, backslashes and
/// control characters are escaped, everything else stands as itself.
pub open spec fn escape_char(c: char) -> Seq<char> {
    if c == '"' {
        seq!['\\', '"']
    } else if c == '\\' {
        seq!['\\', '\\']
    } else if c == '\n' {
        seq!['\\', 'n']
    } else if c == '\r' {
        seq!['\\', 'r']
    } else if c == '\t' {
        seq!['\\', 't']
    } else if (c as u32) == 8 {
        seq!['\\', 'b']
    } else if (c as u32) == 12 {
        seq!['\\', 'f']
    } else if (c as u32) < 32 {
        seq!['\\', 'u', '0', '0', hex_digit(c as u32 as int / 16), hex_digit(c as u32 as int % 16)]
    } else {
        seq![c]
    }
}

pub open spec fn escape_str(s: Seq<char>) -> Seq<char>
    decreases s.len(),
{
    if s.len() == 0 {
        Seq::empty()
    } else {
        escape_str(s.drop_last()) + escape_char(s.last())
    }
}

/// The textual form of a JSON value: compact, in document order.
pub open spec fn render_json(v: JsonV) -> Seq<char>
    decreases v,
{
    match v {
        JsonV::Null => seq!['n', 'u', 'l', 'l'],
        JsonV::Bool(b) => if b {
            seq!['t', 'r', 'u', 'e']
        } else {
            seq!['f', 'a', 'l', 's', 'e']
        },
        JsonV::Num(t) => t,
        JsonV::Str(s) => seq!['"'] + escape_str(s) + seq!['"'],
        JsonV::Arr(es) => seq!['['] + render_items(es) + seq![']'],
        JsonV::Obj(ms) => seq!['{'] + render_members(ms) + seq!['}'],
    }
}

pub open spec fn render_items(es: Seq<JsonV>) -> Seq<char>
    decreases es,
{
    if es.len() == 0 {
        Seq::empty()
    } else if es.len() == 1 {
        render_json(es[0])
    } else {
        render_items(es.drop_last()) + seq![','] + render_json(es.last())
    }
}

pub open spec fn render_members(ms: Seq<(Seq<char>, JsonV)>) -> Seq<char>
    decreases ms,
{
    if ms.len() == 0 {
        Seq::empty()
    } else if ms.len() == 1 {
        seq!['"'] + escape_str(ms[0].0) + seq!['"', ':'] + render_json(ms[0].1)
    } else {
        render_members(ms.drop_last()) + seq![','] + seq!['"'] + escape_str(ms.last().0) + seq![
            '"',
            ':',
        ] + render_json(ms.last().1)
    }
}

fn hex_char(n: u32) -> (r: char)
    requires
        n < 16,
    ensures
        r == hex_digit(n as int),
{
    if n == 0 {
        '0'
    } else if n == 1 {
        '1'
    } else if n == 2 {
        '2'
    } else if n == 3 {
        '3'
    } else if n == 4 {
        '4'
    } else if n == 5 {
        '5'
    } else if n == 6 {
        '6'
    } else if n == 7 {
        '7'
    } else if n == 8 {
        '8'
    } else if n == 9 {
        '9'
    } else if n == 10 {
        'a'
    } else if n == 11 {
        'b'
    } else if n == 12 {
        'c'
    } else if n == 13 {
        'd'
    } else if n == 14 {
        'e'
    } else {
        'f'
    }
}

fn push_escaped_char(out: &mut String, c: char)
    ensures
        final(out)@ == old(out)@ + escape_char(c),
{
    if c == '"' {
        push_char(out, '\\');
        push_char(out, '"');
    } else if c == '\\' {
        push_char(out, '\\');
        push_char(out, '\\');
    } else if c == '\n' {
        push_char(out, '\\');
        push_char(out, 'n');
    } else if c == '\r' {
        push_char(out, '\\');
        push_char(out, 'r');
    } else if c == '\t' {
        push_char(out, '\\');
        push_char(out, 't');
    } else if (c as u32) == 8 {
        push_char(out, '\\');
        push_char(out, 'b');
    } else if (c as u32) == 12 {
        push_char(out, '\\');
        push_char(out, 'f');
    } else if (c as u32) < 32 {
        push_char(out, '\\');
        push_char(out, 'u');
        push_char(out, '0');
        push_char(out, '0');
        push_char(out, hex_char(c as u32 / 16));
        push_char(out, hex_char(c as u32 % 16));
    } else {
        push_char(out, c);
    }
    proof {
        assert(out@ =~= old(out)@ + escape_char(c));
    }
}

/// Writes a string with quotes and escapes after the text already in `out`.
fn push_quoted(out: &mut String, s: &str)
    ensures
        final(out)@ == old(out)@ + seq!['"'] + escape_str(s@) + seq!['"'],
{
    push_char(out, '"');
    let n = s.unicode_len();
    let mut i: usize = 0;
    while i < n
        invariant
            n == s@.len(),
            0 <= i <= n,
            out@ == old(out)@ + seq!['"'] + escape_str(s@.take(i as int)),
        decreases n - i,
    {
        let c = s.get_char(i);
        push_escaped_char(out, c);
        proof {
            assert(s@.take(i + 1).drop_last() =~= s@.take(i as int));
            assert(s@.take(i + 1).last() == s@[i as int]);
            assert(out@ =~= old(out)@ + seq!['"'] + escape_str(s@.take(i + 1)));
        }
        i += 1;
    }
    push_char(out, '"');
    proof {
        assert(s@.take(n as int) =~= s@);
        assert(out@ =~= old(out)@ + seq!['"'] + escape_str(s@) + seq!['"']);
    }
}

proof fn lemma_render_items_step(s: Seq<JsonV>, i: int)
    requires
        0 <= i < s.len(),
    ensures
        i == 0 ==> render_items(s.take(1)) == render_json(s[0]),
        i > 0 ==> render_items(s.take(i + 1)) == render_items(s.take(i)) + seq![','] + render_json(
            s[i],
        ),
{
    assert(s.take(i + 1).last() == s[i]);
    assert(s.take(i + 1).drop_last() =~= s.take(i));
    if i == 0 {
        assert(s.take(1)[0] == s[0]);
    }
}

proof fn lemma_render_members_step(s: Seq<(Seq<char>, JsonV)>, i: int)
    requires
        0 <= i < s.len(),
    ensures
        i == 0 ==> render_members(s.take(1)) == seq!['"'] + escape_str(s[0].0) + seq!['"', ':']
            + render_json(s[0].1),
        i > 0 ==> render_members(s.take(i + 1)) == render_members(s.take(i)) + seq![','] + seq!['"']
            + escape_str(s[i].0) + seq!['"', ':'] + render_json(s[i].1),
{
    assert(s.take(i + 1).last() == s[i]);
    assert(s.take(i + 1).drop_last() =~= s.take(i));
    if i == 0 {
        assert(s.take(1)[0] == s[0]);
    }
}

#[verifier::loop_isolation(false)]
#[verifier::rlimit(50)]
fn render_into(v: &JsonValue, out: &mut String)
    ensures
        final(out)@ == old(out)@ + render_json(jv(*v)),
    decreases *v,
{
    match v {
        JsonValue::Null => {
            push_char(out, 'n');
            push_char(out, 'u');
            push_char(out, 'l');
            push_char(out, 'l');
            proof {
                assert(out@ =~= old(out)@ + render_json(jv(*v)));
            }
        },
        JsonValue::Bool(b) => {
            if *b {
                push_char(out, 't');
                push_char(out, 'r');
                push_char(out, 'u');
                push_char(out, 'e');
            } else {
                push_char(out, 'f');
                push_char(out, 'a');
                push_char(out, 'l');
                push_char(out, 's');
                push_char(out, 'e');
            }
            proof {
                assert(out@ =~= old(out)@ + render_json(jv(*v)));
            }
        },
        JsonValue::Num(t) => {
            out.append(t.as_str());
        },
        JsonValue::Str(s) => {
            push_quoted(out, s.as_str());
            proof {
                assert(out@ =~= old(out)@ + render_json(jv(*v)));
            }
        },
        JsonValue::Array(es) => {
            proof {
                lemma_jv_arr(es@);
            }
            push_char(out, '[');
            let n = es.len();
            let mut i: usize = 0;
            while i < n
                invariant
                    out@ == old(out)@ + seq!['['] + render_items(jv_arr(es@).take(i as int)),
                    0 <= i <= n,
                decreases n - i,
            {
                if i > 0 {
                    push_char(out, ',');
                }
                proof {
                    assert(decreases_to!(*v => (*v)->Array_0));
                    assert((*v)->Array_0 == *es);
                    assert(decreases_to!(*es => es@));
                    assert(decreases_to!(es@ => es@[i as int]));
                }
                render_into(&es[i], out);
                proof {
                    lemma_render_items_step(jv_arr(es@), i as int);
                    assert(out@ =~= old(out)@ + seq!['['] + render_items(
                        jv_arr(es@).take(i + 1),
                    ));
                }
                i += 1;
            }
            push_char(out, ']');
            proof {
                assert(jv_arr(es@).take(n as int) =~= jv_arr(es@));
                assert(out@ =~= old(out)@ + render_json(jv(*v)));
            }
        },
        JsonValue::Object(ms) => {
            proof {
                lemma_jv_obj(ms@);
            }
            push_char(out, '{');
            let n = ms.len();
            let mut i: usize = 0;
            while i < n
                invariant
                    out@ == old(out)@ + seq!['{'] + render_members(jv_obj(ms@).take(i as int)),
                    0 <= i <= n,
                decreases n - i,
            {
                if i > 0 {
                    push_char(out, ',');
                }
                push_quoted(out, ms[i].0.as_str());
                push_char(out, ':');
                proof {
                    assert(decreases_to!(*v => (*v)->Object_0));
                    assert((*v)->Object_0 == *ms);
                    assert(decreases_to!(*ms => ms@));
                    assert(decreases_to!(ms@ => ms@[i as int]));
                    assert(decreases_to!(ms@[i as int] => ms@[i as int].1));
                }
                render_into(&ms[i].1, out);
                proof {
                    lemma_render_members_step(jv_obj(ms@), i as int);
                    assert(out@ =~= old(out)@ + seq!['{'] + render_members(
                        jv_obj(ms@).take(i + 1),
                    ));
                }
                i += 1;
            }
            push_char(out, '}');
            proof {
                assert(jv_obj(ms@).take(n as int) =~= jv_obj(ms@));
                assert(out@ =~= old(out)@ + render_json(jv(*v)));
            }
        },
    }
}

/// The textual form of a JSON value, for diagnostics.
pub fn json_to_string(v: &JsonValue) -> (r: String)
    ensures
        r@ == render_json(jv(*v)),
{
    let mut out = String::new();
    render_into(v, &mut out);
    proof {
        assert(out@ =~= render_json(jv(*v)));
    }
    out
}

} // verus!
