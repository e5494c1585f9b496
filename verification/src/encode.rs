//! Channel wire formats: the JSON body a chat-post endpoint takes, and the
//! form-urlencoded body an SMS endpoint takes.

use vstd::prelude::*;

use crate::text::push_char;

verus! {

/// An uppercase hexadecimal digit.
pub open spec fn hex_upper(d: int) -> char {
    if d < 10 {
        ((48 + d) as u8) as char
    } else {
        ((55 + d) as u8) as char
    }
}

/// A lowercase hexadecimal digit.
pub open spec fn hex_lower(d: int) -> char {
    if d < 10 {
        ((48 + d) as u8) as char
    } else {
        ((87 + d) as u8) as char
    }
}

fn hex_upper_exec(d: u8) -> (r: char)
    requires
        d < 16,
    ensures
        r == hex_upper(d as int),
{
    if d < 10 {
        ((48 + d) as u8) as char
    } else {
        ((55 + d) as u8) as char
    }
}

fn hex_lower_exec(d: u32) -> (r: char)
    requires
        d < 16,
    ensures
        r == hex_lower(d as int),
{
    if d < 10 {
        ((48 + d) as u8) as char
    } else {
        ((87 + d) as u8) as char
    }
}

/// How one character appears inside a JSON string literal: quote and
/// backslash escaped, the short escapes for the usual control characters,
/// a `\u00..` escape for the rest of the control range, and every other
/// character as itself.
pub open spec fn json_escape_char(c: char) -> Seq<char> {
    if c == '"' {
        seq!['\\', '"']
    } else if c == '\\' {
        seq!['\\', '\\']
    } else if c == '\u{8}' {
        seq!['\\', 'b']
    } else if c == '\t' {
        seq!['\\', 't']
    } else if c == '\n' {
        seq!['\\', 'n']
    } else if c == '\u{c}' {
        seq!['\\', 'f']
    } else if c == '\r' {
        seq!['\\', 'r']
    } else if (c as u32) < 32 {
        seq!['\\', 'u', '0', '0', hex_lower(c as u32 as int / 16), hex_lower(c as u32 as int % 16)]
    } else {
        seq![c]
    }
}

/// A whole text escaped for a JSON string literal.
pub open spec fn json_escaped(s: Seq<char>) -> Seq<char>
    decreases s.len(),
{
    if s.len() == 0 {
        Seq::empty()
    } else {
        json_escaped(s.drop_last()) + json_escape_char(s.last())
    }
}

/// Escapes a text for use inside a JSON string literal.
pub fn json_escape(s: &str) -> (r: String)
    ensures
        r@ == json_escaped(s@),
{
    let n = s.unicode_len();
    let mut r = String::new();
    let mut i: usize = 0;
    while i < n
        invariant
            i <= n,
            n == s@.len(),
            r@ == json_escaped(s@.take(i as int)),
        decreases n - i,
    {
        let c = s.get_char(i);
        proof {
            assert(s@.take(i + 1).drop_last() =~= s@.take(i as int));
            assert(s@.take(i + 1).last() == s@[i as int]);
        }
        if c == '"' {
            push_char(&mut r, '\\');
            push_char(&mut r, '"');
        } else if c == '\\' {
            push_char(&mut r, '\\');
            push_char(&mut r, '\\');
        } else if c == '\u{8}' {
            push_char(&mut r, '\\');
            push_char(&mut r, 'b');
        } else if c == '\t' {
            push_char(&mut r, '\\');
            push_char(&mut r, 't');
        } else if c == '\n' {
            push_char(&mut r, '\\');
            push_char(&mut r, 'n');
        } else if c == '\u{c}' {
            push_char(&mut r, '\\');
            push_char(&mut r, 'f');
        } else if c == '\r' {
            push_char(&mut r, '\\');
            push_char(&mut r, 'r');
        } else if (c as u32) < 32 {
            let u: u32 = c as u32;
            push_char(&mut r, '\\');
            push_char(&mut r, 'u');
            push_char(&mut r, '0');
            push_char(&mut r, '0');
            push_char(&mut r, hex_lower_exec(u / 16));
            push_char(&mut r, hex_lower_exec(u % 16));
        } else {
            push_char(&mut r, c);
        }
        proof {
            assert(r@ =~= json_escaped(s@.take(i + 1)));
        }
        i += 1;
    }
    proof {
        assert(s@.take(n as int) =~= s@);
    }
    r
}

/// The JSON payload the chat-post endpoint takes: a channel and a text.
pub open spec fn slack_body_text(channel: Seq<char>, text: Seq<char>) -> Seq<char> {
    "{\"channel\":\""@ + json_escaped(channel) + "\",\"text\":\""@ + json_escaped(text) + "\"}"@
}

/// Builds the chat-post JSON payload.
pub fn slack_body(channel: &str, text: &str) -> (r: String)
    ensures
        r@ == slack_body_text(channel@, text@),
{
    let mut r = String::from_str("{\"channel\":\"");
    r.append(json_escape(channel).as_str());
    r.append("\",\"text\":\"");
    r.append(json_escape(text).as_str());
    r.append("\"}");
    proof {
        assert(r@ =~= slack_body_text(channel@, text@));
    }
    r
}

/// A byte that form-urlencoding passes through unchanged: an ASCII letter
/// or digit, or one of `*` `-` `.` `_`.
pub open spec fn form_unreserved(b: u8) -> bool {
    (48 <= b && b <= 57) || (65 <= b && b <= 90) || (97 <= b && b <= 122) || b == 42 || b == 45
        || b == 46 || b == 95
}

/// How one byte appears in a form-urlencoded body: unreserved bytes as
/// themselves, space as `+`, everything else percent-encoded.
pub open spec fn form_byte(b: u8) -> Seq<char> {
    if form_unreserved(b) {
        seq![b as char]
    } else if b == 32 {
        seq!['+']
    } else {
        seq!['%', hex_upper(b as int / 16), hex_upper(b as int % 16)]
    }
}

/// A whole byte string form-urlencoded.
pub open spec fn form_encoded(bs: Seq<u8>) -> Seq<char>
    decreases bs.len(),
{
    if bs.len() == 0 {
        Seq::empty()
    } else {
        form_encoded(bs.drop_last()) + form_byte(bs.last())
    }
}

/// Form-urlencodes a text, byte by byte of its UTF-8 form.
pub fn form_encode(s: &str) -> (r: String)
    ensures
        r@ == form_encoded(vstd::utf8::encode_utf8(s@)),
{
    let bs = s.as_bytes();
    let mut r = String::new();
    let mut i: usize = 0;
    while i < bs.len()
        invariant
            i <= bs@.len(),
            bs@ == vstd::utf8::encode_utf8(s@),
            r@ == form_encoded(bs@.take(i as int)),
        decreases bs.len() - i,
    {
        let b = bs[i];
        proof {
            assert(bs@.take(i + 1).drop_last() =~= bs@.take(i as int));
            assert(bs@.take(i + 1).last() == bs@[i as int]);
        }
        if (48 <= b && b <= 57) || (65 <= b && b <= 90) || (97 <= b && b <= 122) || b == 42
            || b == 45 || b == 46 || b == 95 {
            push_char(&mut r, b as char);
        } else if b == 32 {
            push_char(&mut r, '+');
        } else {
            push_char(&mut r, '%');
            push_char(&mut r, hex_upper_exec(b / 16));
            push_char(&mut r, hex_upper_exec(b % 16));
        }
        proof {
            assert(r@ =~= form_encoded(bs@.take(i + 1)));
        }
        i += 1;
    }
    proof {
        assert(bs@.take(bs@.len() as int) =~= bs@);
    }
    r
}

/// The SMS provider's message endpoint for an account.
pub open spec fn twilio_url_text(account: Seq<char>) -> Seq<char> {
    "https://api.twilio.com/2010-04-01/Accounts/"@ + account + "/Messages.json"@
}

/// Builds the SMS provider's message endpoint for an account.
pub fn twilio_url(account: &str) -> (r: String)
    ensures
        r@ == twilio_url_text(account@),
{
    let mut r = String::from_str("https://api.twilio.com/2010-04-01/Accounts/");
    r.append(account);
    r.append("/Messages.json");
    proof {
        assert(r@ =~= twilio_url_text(account@));
    }
    r
}

/// The form-urlencoded body the SMS endpoint takes: receiver, sender, text.
pub open spec fn twilio_form_text(to: Seq<char>, from: Seq<char>, body: Seq<char>) -> Seq<char> {
    "To="@ + form_encoded(vstd::utf8::encode_utf8(to)) + "&From="@ + form_encoded(
        vstd::utf8::encode_utf8(from),
    ) + "&Body="@ + form_encoded(vstd::utf8::encode_utf8(body))
}

/// Builds the SMS form body.
pub fn twilio_form_body(to: &str, from: &str, body: &str) -> (r: String)
    ensures
        r@ == twilio_form_text(to@, from@, body@),
{
    let mut r = String::from_str("To=");
    r.append(form_encode(to).as_str());
    r.append("&From=");
    r.append(form_encode(from).as_str());
    r.append("&Body=");
    r.append(form_encode(body).as_str());
    proof {
        assert(r@ =~= twilio_form_text(to@, from@, body@));
    }
    r
}

} // verus!
