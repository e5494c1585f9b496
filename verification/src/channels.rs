//! The closed enumeration of notification channels, and the parser that
//! turns the comma-separated `MESSENGERS` value into a channel list. Tokens
//! are stripped of spaces and uppercased; any token outside the enumeration
//! rejects the whole list, whatever its case was.

use vstd::prelude::*;

use crate::errors::ConfigError;
use crate::text::{chars_to_string, upper_char, upper_char_exec, upper_seq};

verus! {

/// One notification channel.
#[derive(Clone, Copy, PartialEq, Eq, Structural, Debug)]
pub enum ChannelId {
    Desktop,
    Beep,
    Discord,
    Slack,
    Text,
}

/// The channel a normalized token names, if any.
pub open spec fn channel_of(name: Seq<char>) -> Option<ChannelId> {
    if name == "BEEP"@ {
        Some(ChannelId::Beep)
    } else if name == "DESKTOP"@ {
        Some(ChannelId::Desktop)
    } else if name == "DISCORD"@ {
        Some(ChannelId::Discord)
    } else if name == "SLACK"@ {
        Some(ChannelId::Slack)
    } else if name == "TEXT"@ {
        Some(ChannelId::Text)
    } else {
        None
    }
}

/// Splits a text at every comma; the empty text is one empty token.
pub open spec fn split_commas(s: Seq<char>) -> Seq<Seq<char>>
    decreases s.len(),
{
    if s.len() == 0 {
        seq![Seq::<char>::empty()]
    } else {
        let init = split_commas(s.drop_last());
        if s.last() == ',' {
            init.push(Seq::empty())
        } else {
            init.update(init.len() - 1, init.last().push(s.last()))
        }
    }
}

/// Whether a character counts as trimmable whitespace around a token.
pub open spec fn is_space(c: char) -> bool {
    c == ' ' || c == '\t' || c == '\n' || c == '\r'
}

/// A token with its leading whitespace dropped.
pub open spec fn trim_leading(t: Seq<char>) -> Seq<char>
    decreases t.len(),
{
    if t.len() > 0 && is_space(t.first()) {
        trim_leading(t.drop_first())
    } else {
        t
    }
}

/// A token with its trailing whitespace dropped.
pub open spec fn trim_trailing(t: Seq<char>) -> Seq<char>
    decreases t.len(),
{
    if t.len() > 0 && is_space(t.last()) {
        trim_trailing(t.drop_last())
    } else {
        t
    }
}

/// One token normalized: leading and trailing whitespace trimmed, the rest
/// uppercased.
pub open spec fn normalize_token(t: Seq<char>) -> Seq<char> {
    upper_seq(trim_trailing(trim_leading(t)))
}

/// The normalized tokens of a `MESSENGERS` value.
pub open spec fn messenger_tokens(v: Seq<char>) -> Seq<Seq<char>> {
    split_commas(v).map_values(|t: Seq<char>| normalize_token(t))
}

/// Whether every token names a known channel.
pub open spec fn all_known(toks: Seq<Seq<char>>) -> bool {
    forall|i: int| 0 <= i < toks.len() ==> channel_of(toks[i]) is Some
}

/// The channels the tokens name, in token order.
pub open spec fn channels_of(toks: Seq<Seq<char>>) -> Seq<ChannelId> {
    Seq::new(toks.len(), |i: int| channel_of(toks[i])->0)
}

/// The first token that names no known channel.
pub open spec fn first_unknown(toks: Seq<Seq<char>>) -> Seq<char>
    decreases toks.len(),
{
    if toks.len() == 0 {
        Seq::empty()
    } else if channel_of(toks.first()) is None {
        toks.first()
    } else {
        first_unknown(toks.drop_first())
    }
}

proof fn lemma_first_unknown(toks: Seq<Seq<char>>, i: int)
    requires
        0 <= i < toks.len(),
        forall|j: int| 0 <= j < i ==> channel_of(toks[j]) is Some,
        channel_of(toks[i]) is None,
    ensures
        first_unknown(toks) == toks[i],
    decreases i,
{
    if i == 0 {
    } else {
        assert(channel_of(toks.first()) is Some);
        assert(forall|j: int| 0 <= j < i - 1 ==> toks.drop_first()[j] == toks[j + 1]);
        lemma_first_unknown(toks.drop_first(), i - 1);
    }
}

/// Character-wise equality of a character vector and a string slice.
fn chars_eq(v: &Vec<char>, s: &str) -> (r: bool)
    ensures
        r == (v@ == s@),
{
    let n = s.unicode_len();
    if v.len() != n {
        return false;
    }
    let mut i: usize = 0;
    while i < n
        invariant
            i <= n,
            n == s@.len(),
            n == v@.len(),
            forall|j: int| 0 <= j < i ==> v@[j] == s@[j],
        decreases n - i,
    {
        if v[i] != s.get_char(i) {
            return false;
        }
        i += 1;
    }
    proof {
        assert(v@ =~= s@);
    }
    true
}

/// Maps a normalized token to its channel, if the token is known.
fn channel_from_chars(v: &Vec<char>) -> (r: Option<ChannelId>)
    ensures
        r == channel_of(v@),
{
    if chars_eq(v, "BEEP") {
        Some(ChannelId::Beep)
    } else if chars_eq(v, "DESKTOP") {
        Some(ChannelId::Desktop)
    } else if chars_eq(v, "DISCORD") {
        Some(ChannelId::Discord)
    } else if chars_eq(v, "SLACK") {
        Some(ChannelId::Slack)
    } else if chars_eq(v, "TEXT") {
        Some(ChannelId::Text)
    } else {
        None
    }
}

/// Splits a value at commas into raw tokens.
fn split_value(s: &str) -> (r: Vec<Vec<char>>)
    ensures
        r@.map_values(|t: Vec<char>| t@) == split_commas(s@),
{
    let n = s.unicode_len();
    let mut parts: Vec<Vec<char>> = Vec::new();
    let mut cur: Vec<char> = Vec::new();
    let mut i: usize = 0;
    while i < n
        invariant
            i <= n,
            n == s@.len(),
            parts@.map_values(|t: Vec<char>| t@).push(cur@) == split_commas(s@.take(i as int)),
        decreases n - i,
    {
        let ghost mp = parts@.map_values(|t: Vec<char>| t@);
        let c = s.get_char(i);
        proof {
            assert(s@.take(i + 1).drop_last() =~= s@.take(i as int));
            assert(s@.take(i + 1).last() == s@[i as int]);
        }
        if c == ',' {
            let done = cur;
            cur = Vec::new();
            parts.push(done);
            proof {
                assert(parts@.map_values(|t: Vec<char>| t@) =~= mp.push(done@));
                assert(parts@.map_values(|t: Vec<char>| t@).push(cur@) =~= split_commas(
                    s@.take(i + 1),
                ));
            }
        } else {
            let ghost cv = cur@;
            cur.push(c);
            proof {
                assert(mp.push(cv).len() >= 1);
                assert(mp.push(cv).last() == cv);
                assert(mp.push(cv).update(mp.len() as int, cv.push(s@[i as int])) =~= mp.push(
                    cur@,
                ));
                assert(parts@.map_values(|t: Vec<char>| t@).push(cur@) =~= split_commas(
                    s@.take(i + 1),
                ));
            }
        }
        i += 1;
    }
    let ghost mp = parts@.map_values(|t: Vec<char>| t@);
    parts.push(cur);
    proof {
        assert(s@.take(n as int) =~= s@);
        assert(parts@.map_values(|t: Vec<char>| t@) =~= mp.push(cur@));
    }
    parts
}

/// Normalizes one raw token: trims the whitespace around it, uppercases it.
fn normalize_chars(t: &Vec<char>) -> (r: Vec<char>)
    ensures
        r@ == normalize_token(t@),
{
    let n = t.len();
    let mut a: usize = 0;
    proof {
        assert(t@.skip(0) =~= t@);
    }
    while a < n && (t[a] == ' ' || t[a] == '\t' || t[a] == '\n' || t[a] == '\r')
        invariant
            a <= n,
            n == t@.len(),
            trim_leading(t@) == trim_leading(t@.skip(a as int)),
        decreases n - a,
    {
        proof {
            assert(t@.skip(a as int).first() == t@[a as int]);
            assert(t@.skip(a as int).drop_first() =~= t@.skip(a + 1));
        }
        a += 1;
    }
    let ghost lead = trim_leading(t@);
    proof {
        if a < n {
            assert(t@.skip(a as int).first() == t@[a as int]);
            assert(lead =~= t@.skip(a as int));
        } else {
            assert(t@.skip(a as int) =~= Seq::<char>::empty());
            assert(lead =~= t@.skip(a as int));
        }
    }
    let mut b: usize = n;
    proof {
        assert(lead.take(n - a) =~= lead);
    }
    while b > a && (t[b - 1] == ' ' || t[b - 1] == '\t' || t[b - 1] == '\n' || t[b - 1] == '\r')
        invariant
            a <= b <= n,
            n == t@.len(),
            lead == t@.skip(a as int),
            trim_trailing(lead) == trim_trailing(lead.take(b - a)),
        decreases b,
    {
        proof {
            assert(lead.take(b - a).last() == t@[b - 1]);
            assert(lead.take(b - a).drop_last() =~= lead.take(b - 1 - a));
        }
        b -= 1;
    }
    let ghost trimmed = trim_trailing(trim_leading(t@));
    proof {
        if b > a {
            assert(lead.take(b - a).last() == t@[b - 1]);
            assert(trimmed =~= lead.take(b - a));
        } else {
            assert(lead.take(b - a) =~= Seq::<char>::empty());
            assert(trimmed =~= lead.take(b - a));
        }
    }
    let mut r: Vec<char> = Vec::new();
    let mut i: usize = a;
    while i < b
        invariant
            a <= i <= b <= n,
            n == t@.len(),
            trimmed == trim_trailing(trim_leading(t@)),
            trimmed =~= t@.skip(a as int).take(b - a),
            r@ == upper_seq(trimmed.take(i - a)),
        decreases b - i,
    {
        proof {
            assert(trimmed[i - a] == t@[i as int]);
            assert(trimmed.take(i - a + 1).drop_last() =~= trimmed.take(i - a));
            assert(trimmed.take(i - a + 1).last() == trimmed[i - a]);
            assert(upper_seq(trimmed.take(i - a + 1)) =~= upper_seq(trimmed.take(i - a)).push(
                upper_char(trimmed[i - a]),
            ));
        }
        r.push(upper_char_exec(t[i]));
        i += 1;
    }
    proof {
        assert(trimmed.take(b - a) =~= trimmed);
    }
    r
}

/// Parses the `MESSENGERS` value into the configured channel list. Every
/// token must name a known channel; otherwise the first unknown token is
/// reported and the whole list is rejected.
pub fn parse_messengers(value: &str) -> (r: Result<Vec<ChannelId>, ConfigError>)
    ensures
        (r is Ok) == all_known(messenger_tokens(value@)),
        r matches Ok(cs) ==> cs@ == channels_of(messenger_tokens(value@)),
        r matches Err(e) ==> (e matches ConfigError::UnknownMessenger(name) && name@
            == first_unknown(messenger_tokens(value@))),
{
    let parts = split_value(value);
    let ghost toks = messenger_tokens(value@);
    proof {
        assert(toks.len() == parts@.len());
    }
    let mut out: Vec<ChannelId> = Vec::new();
    let mut i: usize = 0;
    while i < parts.len()
        invariant
            i <= parts.len(),
            parts@.map_values(|t: Vec<char>| t@) == split_commas(value@),
            toks == messenger_tokens(value@),
            toks.len() == parts@.len(),
            forall|j: int| 0 <= j < i ==> channel_of(toks[j]) is Some,
            out@ == channels_of(toks).take(i as int),
        decreases parts.len() - i,
    {
        let norm = normalize_chars(&parts[i]);
        proof {
            assert(toks[i as int] == normalize_token(parts@[i as int]@));
        }
        match channel_from_chars(&norm) {
            Some(c) => {
                out.push(c);
                proof {
                    assert(channels_of(toks).take(i + 1) =~= channels_of(toks).take(
                        i as int,
                    ).push(c));
                }
            },
            None => {
                proof {
                    lemma_first_unknown(toks, i as int);
                }
                return Err(ConfigError::UnknownMessenger(chars_to_string(&norm)));
            },
        }
        i += 1;
    }
    proof {
        assert(out@ =~= channels_of(toks));
    }
    Ok(out)
}

} // verus!
