//! Rendering of summary documents as JSON text.
//!
//! A summary is first assembled into a small JSON document tree and then
//! printed either compactly (one line, machine-friendly) or pretty
//! (multi-line, two-space indentation).  Both renderings are specified
//! exactly, character by character, so that the two encodings of one
//! document are provably lossless re-encodings of the same structure.

use vstd::prelude::*;

verus! {

/// One JSON value of a summary document: a null, a string, a signed or
/// unsigned integer, or an object.
pub enum JsonVal {
    Null,
    Str(String),
    Int(i64),
    UInt(u64),
    Obj(Members),
}

/// The members of a JSON object, in output order.
pub enum Members {
    Nil,
    Cons(String, Box<JsonVal>, Box<Members>),
}

/// Relies on `String::push`: appends the character to the end of the string.
pub assume_specification[ String::push ](s: &mut String, c: char)
    ensures
        final(s)@ == old(s)@ + seq![c],
;

/// `n` space characters.
pub open spec fn spaces(n: nat) -> Seq<char>
    decreases n,
{
    if n == 0 {
        Seq::<char>::empty()
    } else {
        spaces((n - 1) as nat).push(' ')
    }
}

/// The decimal digit character for `d`.
pub open spec fn digit_char(d: nat) -> char {
    if d == 0 {
        '0'
    } else if d == 1 {
        '1'
    } else if d == 2 {
        '2'
    } else if d == 3 {
        '3'
    } else if d == 4 {
        '4'
    } else if d == 5 {
        '5'
    } else if d == 6 {
        '6'
    } else if d == 7 {
        '7'
    } else if d == 8 {
        '8'
    } else if d == 9 {
        '9'
    } else if d == 10 {
        'a'
    } else if d == 11 {
        'b'
    } else if d == 12 {
        'c'
    } else if d == 13 {
        'd'
    } else if d == 14 {
        'e'
    } else {
        'f'
    }
}

/// The decimal representation of `n`, most significant digit first.
pub open spec fn dec_rep(n: nat) -> Seq<char>
    decreases n,
{
    if n < 10 {
        seq![digit_char(n)]
    } else {
        dec_rep(n / 10).push(digit_char(n % 10))
    }
}

/// The decimal representation of a signed integer.
pub open spec fn int_rep(i: int) -> Seq<char> {
    if i < 0 {
        seq!['-'] + dec_rep((-i) as nat)
    } else {
        dec_rep(i as nat)
    }
}

/// How one character is written inside a JSON string literal: quotes and
/// backslashes are escaped, control characters use the short escapes or a
/// `\u00` sequence, and every other character stands for itself.
pub open spec fn escape_char(c: char) -> Seq<char> {
    if c == '"' {
        seq!['\\', '"']
    } else if c == '\\' {
        seq!['\\', '\\']
    } else if c == '\n' {
        seq!['\\', 'n']
    } else if c == '\r' {
        seq!['\\', 'r']
    } else if c == '\t' {
        seq!['\\', 't']
    } else if c == '\u{8}' {
        seq!['\\', 'b']
    } else if c == '\u{c}' {
        seq!['\\', 'f']
    } else if (c as u32) < 32 {
        seq!['\\', 'u', '0', '0', digit_char((c as u32) as nat / 16), digit_char(
            (c as u32) as nat % 16,
        )]
    } else {
        seq![c]
    }
}

/// A whole string escaped for a JSON string literal.
pub open spec fn escape_str(s: Seq<char>) -> Seq<char>
    decreases s.len(),
{
    if s.len() == 0 {
        Seq::<char>::empty()
    } else {
        escape_str(s.drop_last()) + escape_char(s.last())
    }
}

/// A quoted, escaped JSON string literal.
pub open spec fn quoted(s: Seq<char>) -> Seq<char> {
    seq!['"'] + escape_str(s) + seq!['"']
}

/// The exact text of a value rendered at indentation `ind`: compact mode
/// writes no whitespace at all; pretty mode indents object members by two
/// further spaces per nesting level.
pub open spec fn render_val(v: JsonVal, pretty: bool, ind: nat) -> Seq<char>
    decreases v,
{
    match v {
        JsonVal::Null => "null"@,
        JsonVal::Str(s) => quoted(s@),
        JsonVal::Int(i) => int_rep(i as int),
        JsonVal::UInt(u) => dec_rep(u as nat),
        JsonVal::Obj(ms) => {
            if ms is Nil {
                "{}"@
            } else if pretty {
                "{\n"@ + render_members(ms, pretty, ind + 2) + "\n"@ + spaces(ind) + "}"@
            } else {
                "{"@ + render_members(ms, pretty, ind) + "}"@
            }
        },
    }
}

/// The exact text of an object's members, separated by commas, each on its
/// own indented line in pretty mode.
pub open spec fn render_members(ms: Members, pretty: bool, ind: nat) -> Seq<char>
    decreases ms,
{
    match ms {
        Members::Nil => Seq::<char>::empty(),
        Members::Cons(k, v, rest) => {
            let head = if pretty {
                spaces(ind) + quoted(k@) + ": "@ + render_val(*v, pretty, ind)
            } else {
                quoted(k@) + ":"@ + render_val(*v, pretty, ind)
            };
            if *rest is Nil {
                head
            } else {
                head + (if pretty {
                    ",\n"@
                } else {
                    ","@
                }) + render_members(*rest, pretty, ind)
            }
        },
    }
}

/// The nesting depth of a value: how many object levels it opens.
pub open spec fn depth_val(v: JsonVal) -> nat
    decreases v,
{
    match v {
        JsonVal::Obj(ms) => 1 + depth_members(ms),
        _ => 0,
    }
}

/// The nesting depth below an object's members.
pub open spec fn depth_members(ms: Members) -> nat
    decreases ms,
{
    match ms {
        Members::Nil => 0,
        Members::Cons(_, v, rest) => {
            let dv = depth_val(*v);
            let dr = depth_members(*rest);
            if dv >= dr {
                dv
            } else {
                dr
            }
        },
    }
}

fn digit(d: u64) -> (c: char)
    requires
        d < 16,
    ensures
        c == digit_char(d as nat),
{
    if d == 0 {
        '0'
    } else if d == 1 {
        '1'
    } else if d == 2 {
        '2'
    } else if d == 3 {
        '3'
    } else if d == 4 {
        '4'
    } else if d == 5 {
        '5'
    } else if d == 6 {
        '6'
    } else if d == 7 {
        '7'
    } else if d == 8 {
        '8'
    } else if d == 9 {
        '9'
    } else if d == 10 {
        'a'
    } else if d == 11 {
        'b'
    } else if d == 12 {
        'c'
    } else if d == 13 {
        'd'
    } else if d == 14 {
        'e'
    } else {
        'f'
    }
}

fn push_spaces(out: &mut String, n: usize)
    ensures
        final(out)@ == old(out)@ + spaces(n as nat),
{
    let mut i: usize = 0;
    while i < n
        invariant
            0 <= i <= n,
            out@ == old(out)@ + spaces(i as nat),
        decreases n - i,
    {
        out.push(' ');
        i += 1;
    }
}

fn push_dec(out: &mut String, n: u64)
    ensures
        final(out)@ == old(out)@ + dec_rep(n as nat),
    decreases n,
{
    if n < 10 {
        out.push(digit(n));
    } else {
        push_dec(out, n / 10);
        out.push(digit(n % 10));
        proof {
            assert(old(out)@ + dec_rep((n / 10) as nat) + seq![digit_char((n % 10) as nat)]
                =~= old(out)@ + dec_rep(n as nat));
        }
    }
}

fn push_int(out: &mut String, i: i64)
    ensures
        final(out)@ == old(out)@ + int_rep(i as int),
{
    if i < 0 {
        out.push('-');
        let mag: u64 = (-(i as i128)) as u64;
        push_dec(out, mag);
        proof {
            assert(old(out)@ + seq!['-'] + dec_rep(mag as nat) =~= old(out)@ + int_rep(i as int));
        }
    } else {
        push_dec(out, i as u64);
    }
}

fn push_escaped_char(out: &mut String, c: char)
    ensures
        final(out)@ == old(out)@ + escape_char(c),
{
    if c == '"' {
        out.push('\\');
        out.push('"');
        proof {
            assert(old(out)@ + seq!['\\'] + seq!['"'] =~= old(out)@ + escape_char(c));
        }
    } else if c == '\\' {
        out.push('\\');
        out.push('\\');
        proof {
            assert(old(out)@ + seq!['\\'] + seq!['\\'] =~= old(out)@ + escape_char(c));
        }
    } else if c == '\n' {
        out.push('\\');
        out.push('n');
        proof {
            assert(old(out)@ + seq!['\\'] + seq!['n'] =~= old(out)@ + escape_char(c));
        }
    } else if c == '\r' {
        out.push('\\');
        out.push('r');
        proof {
            assert(old(out)@ + seq!['\\'] + seq!['r'] =~= old(out)@ + escape_char(c));
        }
    } else if c == '\t' {
        out.push('\\');
        out.push('t');
        proof {
            assert(old(out)@ + seq!['\\'] + seq!['t'] =~= old(out)@ + escape_char(c));
        }
    } else if c == '\u{8}' {
        out.push('\\');
        out.push('b');
        proof {
            assert(old(out)@ + seq!['\\'] + seq!['b'] =~= old(out)@ + escape_char(c));
        }
    } else if c == '\u{c}' {
        out.push('\\');
        out.push('f');
        proof {
            assert(old(out)@ + seq!['\\'] + seq!['f'] =~= old(out)@ + escape_char(c));
        }
    } else if (c as u32) < 32 {
        let code = c as u32;
        out.push('\\');
        out.push('u');
        out.push('0');
        out.push('0');
        out.push(digit((code / 16) as u64));
        out.push(digit((code % 16) as u64));
        proof {
            assert(old(out)@ + seq!['\\'] + seq!['u'] + seq!['0'] + seq!['0'] + seq![
                digit_char((code / 16) as nat),
            ] + seq![digit_char((code % 16) as nat)] =~= old(out)@ + escape_char(c));
        }
    } else {
        out.push(c);
        proof {
            assert(old(out)@ + seq![c] =~= old(out)@ + escape_char(c));
        }
    }
}

fn push_quoted(out: &mut String, s: &str)
    ensures
        final(out)@ == old(out)@ + quoted(s@),
{
    out.push('"');
    let n = s.unicode_len();
    let ghost mid = out@;
    let mut i: usize = 0;
    while i < n
        invariant
            0 <= i <= n,
            n == s@.len(),
            out@ == mid + escape_str(s@.take(i as int)),
        decreases n - i,
    {
        let c = s.get_char(i);
        push_escaped_char(out, c);
        proof {
            assert(s@.take(i + 1).drop_last() =~= s@.take(i as int));
            assert(s@.take(i + 1).last() == s@[i as int]);
            assert(mid + escape_str(s@.take(i as int)) + escape_char(s@[i as int]) =~= mid
                + escape_str(s@.take(i + 1)));
        }
        i += 1;
    }
    proof {
        assert(s@.take(n as int) =~= s@);
    }
    out.push('"');
    proof {
        assert(old(out)@ + seq!['"'] + escape_str(s@) + seq!['"'] =~= old(out)@ + quoted(s@));
    }
}

/// Renders one value at indentation `ind`, appending to `out`.
fn render_val_into(v: &JsonVal, pretty: bool, ind: usize, out: &mut String)
    requires
        ind + 2 * depth_val(*v) <= usize::MAX,
    ensures
        final(out)@ == old(out)@ + render_val(*v, pretty, ind as nat),
    decreases *v,
{
    match v {
        JsonVal::Null => {
            out.append("null");
        },
        JsonVal::Str(s) => {
            push_quoted(out, s.as_str());
        },
        JsonVal::Int(i) => {
            push_int(out, *i);
        },
        JsonVal::UInt(u) => {
            push_dec(out, *u);
        },
        JsonVal::Obj(ms) => {
            if matches!(ms, Members::Nil) {
                out.append("{}");
            } else if pretty {
                out.append("{\n");
                render_members_into(ms, pretty, ind + 2, out);
                out.append("\n");
                push_spaces(out, ind);
                out.append("}");
                proof {
                    assert(old(out)@ + "{\n"@ + render_members(*ms, pretty, (ind + 2) as nat) + "\n"@
                        + spaces(ind as nat) + "}"@ =~= old(out)@ + render_val(
                        *v,
                        pretty,
                        ind as nat,
                    ));
                }
            } else {
                out.append("{");
                render_members_into(ms, pretty, ind, out);
                out.append("}");
                proof {
                    assert(old(out)@ + "{"@ + render_members(*ms, pretty, ind as nat) + "}"@
                        =~= old(out)@ + render_val(*v, pretty, ind as nat));
                }
            }
        },
    }
}

/// Renders an object's members at indentation `ind`, appending to `out`.
fn render_members_into(ms: &Members, pretty: bool, ind: usize, out: &mut String)
    requires
        ind + 2 * depth_members(*ms) <= usize::MAX,
    ensures
        final(out)@ == old(out)@ + render_members(*ms, pretty, ind as nat),
    decreases *ms,
{
    match ms {
        Members::Nil => {},
        Members::Cons(k, v, rest) => {
            if pretty {
                push_spaces(out, ind);
                push_quoted(out, k.as_str());
                out.append(": ");
            } else {
                push_quoted(out, k.as_str());
                out.append(":");
            }
            let ghost head_done = out@;
            render_val_into(&**v, pretty, ind, out);
            let ghost expected_head = if pretty {
                spaces(ind as nat) + quoted(k@) + ": "@ + render_val(**v, pretty, ind as nat)
            } else {
                quoted(k@) + ":"@ + render_val(**v, pretty, ind as nat)
            };
            proof {
                assert(out@ =~= old(out)@ + expected_head);
            }
            if matches!(&**rest, Members::Nil) {
            } else {
                if pretty {
                    out.append(",\n");
                } else {
                    out.append(",");
                }
                let ghost sep_done = out@;
                render_members_into(&**rest, pretty, ind, out);
                proof {
                    assert(out@ =~= old(out)@ + render_members(*ms, pretty, ind as nat));
                }
            }
        },
    }
}

/// Renders a document as JSON text: pretty (multi-line, two-space indent)
/// or compact (single line, no whitespace).  The text is exactly the
/// rendering the specification gives, so equal documents always yield
/// byte-identical output.
pub fn render_json(v: &JsonVal, pretty: bool) -> (r: String)
    requires
        2 * depth_val(*v) <= usize::MAX,
    ensures
        r@ == render_val(*v, pretty, 0),
{
    let mut out = String::new();
    render_val_into(v, pretty, 0, &mut out);
    out
}

} // verus!
