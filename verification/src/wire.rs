//! The wire format: each message a complete serialized configuration
//! snapshot — one self-contained object with stable field names, never a
//! partial diff — so a viewer only ever replaces its local state with the
//! latest message received.
//!
//! The encoding is a fixed-schema JSON object built character by
//! character; the one variable-shaped part, the script text, is escaped
//! so that a quote, a backslash or a control character can never corrupt
//! the framing.

use crate::state::{align_label, font_label, ConfigView, Rgb, TeleprompterConfig};
use vstd::prelude::*;
use vstd::std_specs::iter::IteratorSpec;

verus! {

broadcast use vstd::string::next_postcondition, vstd::string::axiom_spec_iter;

/// The JSON spelling of a boolean.
pub open spec fn json_bool(b: bool) -> Seq<char> {
    if b {
        "true"@
    } else {
        "false"@
    }
}

/// The decimal digits of `n`, most significant first.
pub open spec fn dec_chars(n: nat) -> Seq<char>
    decreases n,
{
    if n < 10 {
        seq![((48 + n) as u8) as char]
    } else {
        dec_chars(n / 10).push(((48 + n % 10) as u8) as char)
    }
}

/// `n` in decimal with a leading minus sign when negative.
pub open spec fn int_chars(n: int) -> Seq<char> {
    if n < 0 {
        seq!['-'] + dec_chars((-n) as nat)
    } else {
        dec_chars(n as nat)
    }
}

/// The lower-case hexadecimal digit of `d`.
pub open spec fn hex_digit(d: nat) -> char {
    if d < 10 {
        ((48 + d) as u8) as char
    } else {
        ((87 + d) as u8) as char
    }
}

/// How one character appears inside a JSON string: quote and backslash
/// get a backslash escape, control characters a `\u00..` escape, and
/// everything else stands as itself.
pub open spec fn escape_char(c: char) -> Seq<char> {
    if c == '"' {
        seq!['\\', '"']
    } else if c == '\\' {
        seq!['\\', '\\']
    } else if (c as u32) < 32 {
        seq!['\\', 'u', '0', '0', hex_digit((c as u32) as nat / 16), hex_digit(
            (c as u32) as nat % 16,
        )]
    } else {
        seq![c]
    }
}

/// A whole character sequence escaped, in order.
pub open spec fn escape_chars(s: Seq<char>) -> Seq<char>
    decreases s.len(),
{
    if s.len() == 0 {
        Seq::empty()
    } else {
        escape_char(s.first()) + escape_chars(s.drop_first())
    }
}

/// A JSON string literal: the escaped content between quotes.
pub open spec fn json_string(s: Seq<char>) -> Seq<char> {
    seq!['"'] + escape_chars(s) + seq!['"']
}

/// A colour as a three-element JSON array of its components.
pub open spec fn json_rgb(c: Rgb) -> Seq<char> {
    seq!['['] + dec_chars(c.red as nat) + seq![','] + dec_chars(c.green as nat) + seq![',']
        + dec_chars(c.blue as nat) + seq![']']
}

/// The complete wire message for one configuration snapshot.
pub open spec fn json_of(c: ConfigView) -> Seq<char> {
    "{\"playing\":"@ + json_bool(c.playing) + ",\"text\":"@ + json_string(c.text)
        + ",\"speed\":"@ + dec_chars(c.speed as nat) + ",\"progress\":"@ + dec_chars(
        c.progress as nat,
    ) + ",\"align\":"@ + json_string(align_label(c.align)) + ",\"font\":"@ + json_string(
        font_label(c.font),
    ) + ",\"font_size\":"@ + int_chars(c.font_size as int) + ",\"font_color\":"@ + json_rgb(
        c.font_color,
    ) + ",\"background_color\":"@ + json_rgb(c.background_color) + ",\"mirrored\":"@
        + json_bool(c.mirrored) + ",\"reversed\":"@ + json_bool(c.reversed) + "}"@
}

/// Relies on String::push: appends exactly the given character at the end.
#[verifier::external_body]
fn push_char(out: &mut String, c: char)
    ensures
        final(out)@ == old(out)@.push(c),
{
    out.push(c);
}

/// The character of a single decimal digit.
fn digit_char_of(d: u32) -> (c: char)
    requires
        d < 10,
    ensures
        c == ((48 + d) as u8) as char,
{
    (48 + d as u8) as char
}

/// The character of a single lower-case hexadecimal digit.
fn hex_char_of(d: u32) -> (c: char)
    requires
        d < 16,
    ensures
        c == hex_digit(d as nat),
{
    if d < 10 {
        (48 + d as u8) as char
    } else {
        (87 + d as u8) as char
    }
}

/// Append the decimal digits of `n`.
fn push_dec_u32(out: &mut String, n: u32)
    ensures
        final(out)@ == old(out)@ + dec_chars(n as nat),
    decreases n,
{
    if n < 10 {
        let c = digit_char_of(n);
        push_char(out, c);
        proof {
            assert(out@ =~= old(out)@ + dec_chars(n as nat));
        }
    } else {
        push_dec_u32(out, n / 10);
        let c = digit_char_of(n % 10);
        push_char(out, c);
        proof {
            assert(out@ =~= old(out)@ + dec_chars(n as nat));
        }
    }
}

/// Append a signed size in decimal.
fn push_dec_i16(out: &mut String, n: i16)
    ensures
        final(out)@ == old(out)@ + int_chars(n as int),
{
    if n < 0 {
        push_char(out, '-');
        let m: u32 = (-(n as i32)) as u32;
        push_dec_u32(out, m);
        proof {
            assert(out@ =~= old(out)@ + int_chars(n as int));
        }
    } else {
        push_dec_u32(out, n as u32);
    }
}

/// Append one character in its escaped form.
fn push_escaped_char(out: &mut String, c: char)
    ensures
        final(out)@ == old(out)@ + escape_char(c),
{
    if c == '"' {
        push_char(out, '\\');
        push_char(out, '"');
        proof {
            assert(out@ =~= old(out)@ + escape_char(c));
        }
    } else if c == '\\' {
        push_char(out, '\\');
        push_char(out, '\\');
        proof {
            assert(out@ =~= old(out)@ + escape_char(c));
        }
    } else if (c as u32) < 32 {
        let code = c as u32;
        push_char(out, '\\');
        push_char(out, 'u');
        push_char(out, '0');
        push_char(out, '0');
        let h = hex_char_of(code / 16);
        push_char(out, h);
        let l = hex_char_of(code % 16);
        push_char(out, l);
        proof {
            assert(out@ =~= old(out)@ + escape_char(c));
        }
    } else {
        push_char(out, c);
        proof {
            assert(out@ =~= old(out)@ + escape_char(c));
        }
    }
}

/// Escaping distributes over appending one character at the back.
proof fn lemma_escape_snoc(s: Seq<char>, c: char)
    ensures
        escape_chars(s.push(c)) == escape_chars(s) + escape_char(c),
    decreases s.len(),
{
    let sp = s.push(c);
    assert(sp.len() == s.len() + 1);
    if s.len() == 0 {
        assert(sp.first() == c);
        assert(sp.drop_first() =~= Seq::<char>::empty());
        assert(escape_chars(sp) == escape_char(c) + escape_chars(Seq::<char>::empty()));
        assert(escape_char(c) + Seq::<char>::empty() =~= escape_char(c));
        assert(escape_chars(s) + escape_char(c) =~= escape_char(c));
    } else {
        assert(sp.first() == s.first());
        assert(sp.drop_first() =~= s.drop_first().push(c));
        lemma_escape_snoc(s.drop_first(), c);
        assert(escape_chars(sp) == escape_char(s.first()) + (escape_chars(s.drop_first())
            + escape_char(c)));
        assert(escape_char(s.first()) + (escape_chars(s.drop_first()) + escape_char(c)) =~= (
        escape_char(s.first()) + escape_chars(s.drop_first())) + escape_char(c));
    }
}

/// Append the escaped form of a whole string.
fn push_escaped(out: &mut String, s: &str)
    ensures
        final(out)@ == old(out)@ + escape_chars(s@),
{
    let mut it = s.chars();
    let ghost all = it.remaining();
    let ghost mut done: Seq<char> = Seq::empty();
    proof {
        assert(all == s@);
        assert(out@ + escape_chars(done) =~= out@);
    }
    loop
        invariant
            all == s@,
            all == done + it.remaining(),
            out@ == old(out)@ + escape_chars(done),
        ensures
            out@ == old(out)@ + escape_chars(all),
        decreases s@.len() - done.len(),
    {
        match it.next() {
            Some(c) => {
                push_escaped_char(out, c);
                proof {
                    lemma_escape_snoc(done, c);
                    done = done.push(c);
                    assert(out@ =~= old(out)@ + escape_chars(done));
                }
            },
            None => {
                proof {
                    assert(it.remaining().len() == 0);
                    assert(done =~= all);
                }
                break ;
            },
        }
    }
}

/// Append a JSON string literal holding `s`.
fn push_json_string(out: &mut String, s: &str)
    ensures
        final(out)@ == old(out)@ + json_string(s@),
{
    push_char(out, '"');
    push_escaped(out, s);
    push_char(out, '"');
    proof {
        assert(out@ =~= old(out)@ + json_string(s@));
    }
}

/// Append the JSON spelling of a boolean.
fn push_bool(out: &mut String, b: bool)
    ensures
        final(out)@ == old(out)@ + json_bool(b),
{
    if b {
        out.append("true");
    } else {
        out.append("false");
    }
}

/// Append a colour as a three-element JSON array.
fn push_rgb(out: &mut String, c: Rgb)
    ensures
        final(out)@ == old(out)@ + json_rgb(c),
{
    push_char(out, '[');
    push_dec_u32(out, c.red as u32);
    push_char(out, ',');
    push_dec_u32(out, c.green as u32);
    push_char(out, ',');
    push_dec_u32(out, c.blue as u32);
    push_char(out, ']');
    proof {
        assert(out@ =~= old(out)@ + json_rgb(c));
    }
}

/// Serialize one configuration snapshot into its wire message.
pub fn encode_config(c: &TeleprompterConfig) -> (r: String)
    ensures
        r@ == json_of(c@),
{
    let mut out = String::new();
    out.append("{\"playing\":");
    push_bool(&mut out, c.playing);
    out.append(",\"text\":");
    push_json_string(&mut out, c.text.as_str());
    out.append(",\"speed\":");
    push_dec_u32(&mut out, c.speed);
    out.append(",\"progress\":");
    push_dec_u32(&mut out, c.progress);
    out.append(",\"align\":");
    let align = c.align.to_string();
    push_json_string(&mut out, align.as_str());
    out.append(",\"font\":");
    let font = c.font.to_string();
    push_json_string(&mut out, font.as_str());
    out.append(",\"font_size\":");
    push_dec_i16(&mut out, c.font_size);
    out.append(",\"font_color\":");
    push_rgb(&mut out, c.font_color);
    out.append(",\"background_color\":");
    push_rgb(&mut out, c.background_color);
    out.append(",\"mirrored\":");
    push_bool(&mut out, c.mirrored);
    out.append(",\"reversed\":");
    push_bool(&mut out, c.reversed);
    out.append("}");
    proof {
        assert(Seq::<char>::empty() + "{\"playing\":"@ =~= "{\"playing\":"@);
        assert(out@ =~= json_of(c@));
    }
    out
}

} // verus!
