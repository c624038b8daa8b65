//! The Telegram Bot API: plain `GET` with query parameters, so there is no JSON to encode.

use vstd::prelude::*;
use crate::telegram::{disable_notification, Notification};
use crate::text;

verus! {

pub const HOST: &'static str = "api.telegram.org";

/// Whole-request budget, in seconds: name lookup, connection, handshake and the exchange itself.
pub const SEND_TIMEOUT: u64 = 30;

/// Seconds after which to give up on a socket that goes quiet.
pub const SOCKET_TIMEOUT: u64 = 10;

/// Whether a byte stands for itself in a query parameter.
pub open spec fn is_unreserved(byte: u8) -> bool {
    ||| 0x41 <= byte <= 0x5a  // A-Z
    ||| 0x61 <= byte <= 0x7a  // a-z
    ||| 0x30 <= byte <= 0x39  // 0-9
    ||| byte == 0x2d || byte == 0x2e || byte == 0x5f || byte == 0x7e  // - . _ ~
}

/// An upper-case hexadecimal digit.
pub open spec fn hex_digit(n: u8) -> char {
    if n < 10 {
        (48 + n) as char
    } else {
        (55 + n) as char
    }
}

/// One byte as it stands in a query parameter.
pub open spec fn escaped(byte: u8) -> Seq<char> {
    if is_unreserved(byte) {
        seq![byte as char]
    } else {
        seq!['%', hex_digit(byte / 16), hex_digit(byte % 16)]
    }
}

/// Bytes as they stand in a query parameter.
pub open spec fn percent(bytes: Seq<u8>) -> Seq<char>
    decreases bytes.len(),
{
    if bytes.len() == 0 {
        Seq::empty()
    } else {
        percent(bytes.drop_last()) + escaped(bytes.last())
    }
}

fn hex(n: u8) -> (c: char)
    requires
        n < 16,
    ensures
        c == hex_digit(n),
{
    if n < 10 {
        (48 + n) as char
    } else {
        (55 + n) as char
    }
}

/// Percent-encode byte-wise, not char-wise: multi-byte UTF-8 needs an escape per byte.
pub fn encode(out: &mut String, value: &str)
    ensures
        final(out)@ == old(out)@ + percent(vstd::utf8::encode_utf8(value@)),
{
    let bytes: &[u8] = value.as_bytes();
    let mut i: usize = 0;
    assert(bytes@.take(0) == Seq::<u8>::empty());
    assert(out@ == old(out)@ + percent(bytes@.take(0)));
    while i < bytes.len()
        invariant
            i <= bytes@.len(),
            out@ == old(out)@ + percent(bytes@.take(i as int)),
        decreases bytes.len() - i,
    {
        let byte: u8 = bytes[i];
        assert(bytes@.take(i + 1).drop_last() == bytes@.take(i as int));
        let ghost before = out@;
        if (0x41 <= byte && byte <= 0x5a) || (0x61 <= byte && byte <= 0x7a) || (0x30 <= byte && byte
            <= 0x39) || byte == 0x2d || byte == 0x2e || byte == 0x5f || byte == 0x7e {
            out.push(byte as char);
        } else {
            out.push('%');
            out.push(hex(byte / 16));
            out.push(hex(byte % 16));
        }
        assert(out@ == before + escaped(byte));
        assert(out@ == old(out)@ + percent(bytes@.take(i + 1)));
        i = i + 1;
    }
    assert(bytes@.take(i as int) == bytes@);
}

/// The value of an upper-case hexadecimal digit.
pub open spec fn hex_value(c: char) -> int {
    if c as int <= 57 {
        c as int - 48
    } else {
        c as int - 55
    }
}

/// The bytes that a query parameter stands for.
pub open spec fn unescaped(s: Seq<char>) -> Seq<u8>
    decreases s.len(),
{
    if s.len() == 0 {
        Seq::empty()
    } else if s[0] == '%' && s.len() >= 3 {
        seq![(hex_value(s[1]) * 16 + hex_value(s[2])) as u8] + unescaped(s.skip(3))
    } else {
        seq![s[0] as u8] + unescaped(s.skip(1))
    }
}

proof fn lemma_percent_first(bytes: Seq<u8>)
    requires
        bytes.len() > 0,
    ensures
        percent(bytes) == escaped(bytes[0]) + percent(bytes.drop_first()),
    decreases bytes.len(),
{
    if bytes.len() == 1 {
        assert(bytes.drop_last() == Seq::<u8>::empty());
        assert(bytes.drop_first() == Seq::<u8>::empty());
        assert(percent(bytes) == escaped(bytes[0]) + percent(bytes.drop_first()));
    } else {
        lemma_percent_first(bytes.drop_last());
        let rest = bytes.drop_first();
        assert(bytes.drop_last().drop_first() == rest.drop_last());
        assert(rest.last() == bytes.last());
        assert(percent(bytes) == escaped(bytes[0]) + percent(rest));
    }
}

/// A parameter reads back as the bytes it was made from.
pub proof fn law_parameter_reads_back(bytes: Seq<u8>)
    ensures
        unescaped(percent(bytes)) == bytes,
    decreases bytes.len(),
{
    if bytes.len() > 0 {
        let rest = bytes.drop_first();
        law_parameter_reads_back(rest);
        lemma_percent_first(bytes);
        let byte = bytes[0];
        let s = percent(bytes);
        if is_unreserved(byte) {
            assert(s[0] == byte as char);
            assert(s.skip(1) == percent(rest));
        } else {
            assert(s[0] == '%');
            assert(s[1] == hex_digit(byte / 16));
            assert(s[2] == hex_digit(byte % 16));
            assert(s.skip(3) == percent(rest));
        }
        assert(unescaped(s) == seq![byte] + unescaped(percent(rest)));
        assert(seq![byte] + rest == bytes);
    }
}

/// Nothing in a parameter can be taken for the end of it, or of the request line: only
/// unreserved characters and percent signs occur.
pub proof fn law_parameter_is_contained(bytes: Seq<u8>)
    ensures
        forall|i: int|
            0 <= i < percent(bytes).len() ==> {
                let c = #[trigger] percent(bytes)[i];
                c == '%' || (c as int) < 128 && is_unreserved(c as u8)
            },
    decreases bytes.len(),
{
    if bytes.len() > 0 {
        law_parameter_is_contained(bytes.drop_last());
        let before = percent(bytes.drop_last());
        assert forall|i: int| 0 <= i < percent(bytes).len() implies {
            let c = #[trigger] percent(bytes)[i];
            c == '%' || (c as int) < 128 && is_unreserved(c as u8)
        } by {
            if i < before.len() {
                assert(percent(bytes)[i] == before[i]);
            } else {
                assert(percent(bytes)[i] == escaped(bytes.last())[i - before.len()]);
            }
        }
    }
}

/// Calls `reqwless::response::StatusCode::is_successful`, which is true from 200 to 299.
#[verifier::external_body]
fn is_successful(status: u16) -> (r: bool)
    ensures
        r == (200 <= status <= 299),
{
    reqwless::response::StatusCode(status).is_successful()
}

/// Who sends, and to which chat.
#[derive(Debug)]
pub struct Bot {
    pub token: &'static str,
    pub chat_id: &'static str,
}

/// What came of a request.
#[derive(Debug)]
pub enum Reply {
    /// Nothing within the whole-request budget.
    Silence,
    /// The exchange broke down; the text says how.
    Broken(String),
    /// An answer with this status.
    Status(u16),
}

#[derive(Debug)]
pub enum SendError {
    Timeout,
    Http(String),
    /// Telegram answered, and said no.
    Status(u16),
}

impl SendError {
    pub open spec fn told(self) -> Seq<char> {
        match self {
            SendError::Timeout => "no answer within "@ + text::decimal(SEND_TIMEOUT as nat) + "s"@,
            SendError::Http(e) => e@,
            SendError::Status(status) => "HTTP "@ + text::decimal(status as nat),
        }
    }

    /// The error in words.
    pub fn to_text(&self) -> (told: String)
        ensures
            told@ == self.told(),
    {
        match self {
            SendError::Timeout => {
                let mut out = String::from_str("no answer within ");
                text::push_decimal(&mut out, SEND_TIMEOUT);
                out.append("s");
                out
            },
            SendError::Http(e) => e.clone(),
            SendError::Status(status) => {
                let mut out = String::from_str("HTTP ");
                text::push_decimal(&mut out, *status as u64);
                out
            },
        }
    }
}

impl Bot {
    /// The request that delivers `message`.
    pub open spec fn request_for(self, message: Notification) -> Seq<char> {
        "https://"@ + HOST@ + "/bot"@ + self.token@ + "/sendMessage?chat_id="@ + percent(
            vstd::utf8::encode_utf8(self.chat_id@),
        ) + (if disable_notification(message.urgency) {
            "&disable_notification=true"@
        } else {
            Seq::empty()
        }) + "&text="@ + percent(vstd::utf8::encode_utf8(message.text@))
    }

    pub fn new(token: &'static str, chat_id: &'static str) -> (bot: Bot)
        ensures
            bot == (Bot { token, chat_id }),
    {
        Bot { token, chat_id }
    }

    /// Carries the bot token: never log it.
    pub fn url(&self, message: &Notification) -> (url: String)
        ensures
            url@ == self.request_for(*message),
    {
        let mut url = String::from_str("https://");
        url.append(HOST);
        url.append("/bot");
        url.append(self.token);
        url.append("/sendMessage?chat_id=");
        encode(&mut url, self.chat_id);
        if disable_notification(message.urgency) {
            url.append("&disable_notification=true");
        }
        url.append("&text=");
        encode(&mut url, message.text.as_str());
        assert(url@ == self.request_for(*message));
        url
    }

    /// Whether a request succeeded, by what came of it.
    pub fn outcome(reply: Reply) -> (result: Result<(), SendError>)
        ensures
            result == (match reply {
                Reply::Silence => Err(SendError::Timeout),
                Reply::Broken(e) => Err(SendError::Http(e)),
                Reply::Status(status) => if 200 <= status <= 299 {
                    Ok(())
                } else {
                    Err(SendError::Status(status))
                },
            }),
    {
        match reply {
            Reply::Silence => Err(SendError::Timeout),
            Reply::Broken(e) => Err(SendError::Http(e)),
            Reply::Status(status) => if is_successful(status) {
                Ok(())
            } else {
                Err(SendError::Status(status))
            },
        }
    }
}

/// Two random words as the seed of a session.
pub fn seed(high: u32, low: u32) -> (seed: u64)
    ensures
        seed == high * 0x1_0000_0000 + low,
{
    (high as u64) * 0x1_0000_0000 + low as u64
}

/// Two messages that are asked for in the same words say the same: the text and the loudness can
/// be read back from the request.
pub proof fn law_request_tells_messages_apart(bot: Bot, a: Notification, b: Notification)
    requires
        bot.request_for(a) == bot.request_for(b),
    ensures
        a.text@ == b.text@,
        disable_notification(a.urgency) == disable_notification(b.urgency),
{
    reveal_strlit("&disable_notification=true");
    reveal_strlit("&text=");
    let head = "https://"@ + HOST@ + "/bot"@ + bot.token@ + "/sendMessage?chat_id="@ + percent(
        vstd::utf8::encode_utf8(bot.chat_id@),
    );
    let n = head.len() as int;
    let u = bot.request_for(a);
    let v = bot.request_for(b);
    assert(u.take(n) == head);
    if disable_notification(a.urgency) {
        assert(u[n + 1] == 'd');
    } else {
        assert(u[n + 1] == 't');
    }
    if disable_notification(b.urgency) {
        assert(v[n + 1] == 'd');
    } else {
        assert(v[n + 1] == 't');
    }
    let skip = if disable_notification(a.urgency) {
        n + 26 + 6
    } else {
        n + 6
    };
    assert(u.skip(skip) == percent(vstd::utf8::encode_utf8(a.text@)));
    assert(v.skip(skip) == percent(vstd::utf8::encode_utf8(b.text@)));
    law_parameter_reads_back(vstd::utf8::encode_utf8(a.text@));
    law_parameter_reads_back(vstd::utf8::encode_utf8(b.text@));
    vstd::utf8::encode_utf8_decode_utf8(a.text@);
    vstd::utf8::encode_utf8_decode_utf8(b.text@);
}

/// Letters, digits and four marks stand for themselves; every other byte is a percent sign and its
/// two hexadecimal digits, the high one first and in upper case.
pub proof fn law_escapes(byte: u8)
    ensures
        ({
            let c = byte as char;
            let plain = 'A' <= c && c <= 'Z' || 'a' <= c && c <= 'z' || '0' <= c && c <= '9' || c
                == '-' || c == '.' || c == '_' || c == '~';
            let digits = "0123456789ABCDEF"@;
            &&& plain ==> escaped(byte) == seq![c]
            &&& !plain ==> escaped(byte) == seq![
                '%',
                digits[byte as int / 16],
                digits[byte as int % 16],
            ]
        }),
{
    reveal_strlit("0123456789ABCDEF");
}

/// A parameter is escaped byte by byte, in order: no byte is left out, and none depends on the
/// others.
pub proof fn law_bytes_are_escaped_in_order(a: Seq<u8>, b: Seq<u8>, byte: u8)
    ensures
        percent(Seq::empty()) == Seq::<char>::empty(),
        percent(seq![byte]) == escaped(byte),
        percent(a + b) == percent(a) + percent(b),
    decreases b.len(),
{
    assert(seq![byte].drop_last() == Seq::<u8>::empty());
    assert(percent(Seq::empty()) == Seq::<char>::empty());
    assert(percent(seq![byte]) == escaped(byte));
    if b.len() == 0 {
        assert(a + b == a);
        assert(percent(a + b) == percent(a) + percent(b));
    } else {
        law_bytes_are_escaped_in_order(a, b.drop_last(), byte);
        assert((a + b).drop_last() == a + b.drop_last());
        assert((a + b).last() == b.last());
        assert(percent(a + b) == percent(a) + percent(b));
    }
}

/// A request names the bot, the chat and the text, in this order. That of an alarm says nothing
/// about notification; that of any other message asks for silence between chat and text.
pub proof fn law_request_asks_for_silence(bot: Bot, message: Notification)
    ensures
        ({
            let chat = "https://api.telegram.org/bot"@ + bot.token@ + "/sendMessage?chat_id="@
                + percent(vstd::utf8::encode_utf8(bot.chat_id@));
            let text = "&text="@ + percent(vstd::utf8::encode_utf8(message.text@));
            &&& message.urgency is Alarm ==> bot.request_for(message) == chat + text
            &&& !(message.urgency is Alarm) ==> bot.request_for(message) == chat
                + "&disable_notification=true"@ + text
        }),
{
    reveal_strlit("https://");
    reveal_strlit("api.telegram.org");
    reveal_strlit("/bot");
    reveal_strlit("https://api.telegram.org/bot");
    let start = "https://"@ + HOST@ + "/bot"@;
    assert(start == "https://api.telegram.org/bot"@);
    let chat = start + bot.token@ + "/sendMessage?chat_id="@ + percent(
        vstd::utf8::encode_utf8(bot.chat_id@),
    );
    let text = "&text="@ + percent(vstd::utf8::encode_utf8(message.text@));
    if message.urgency is Alarm {
        assert(bot.request_for(message) == chat + text);
    } else {
        assert(bot.request_for(message) == chat + "&disable_notification=true"@ + text);
    }
}

/// Of a message only its text, and whether it is an alarm, goes into its request: all that are no
/// alarms are asked for alike, and the stamp plays no part.
pub proof fn law_requests_of_the_same_loudness(bot: Bot, a: Notification, b: Notification)
    requires
        a.text@ == b.text@,
        (a.urgency is Alarm) == (b.urgency is Alarm),
    ensures
        bot.request_for(a) == bot.request_for(b),
{
    law_request_asks_for_silence(bot, a);
    law_request_asks_for_silence(bot, b);
}

/// What is said of an error.
pub proof fn law_errors_in_words(e: String, status: u16)
    ensures
        SendError::Timeout.told() == "no answer within 30s"@,
        SendError::Http(e).told() == e@,
        SendError::Status(status).told() == "HTTP "@ + text::decimal(status as nat),
{
    reveal_strlit("no answer within ");
    reveal_strlit("s");
    reveal_strlit("no answer within 30s");
    reveal_with_fuel(text::decimal, 3);
    assert(SendError::Timeout.told() == "no answer within 30s"@);
}

} // verus!
