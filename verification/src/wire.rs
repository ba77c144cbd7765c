use vstd::prelude::*;
use vstd::utf8::encode_utf8;
use vstd::string::StringSliceAdditionalSpecFns;
use crate::envelope::WsMessage;

verus! {

/// Lowercase hex digit character for a nibble.
pub open spec fn hex_char(n: u8) -> u8 {
    if n < 10 {
        (0x30 + n) as u8
    } else {
        (0x57 + n) as u8
    }
}

/// How one byte of a string appears inside a JSON string literal:
/// quote and backslash are escaped, the common control characters get
/// their short escapes, any other control character becomes a
/// `\u00..` escape, and everything else — multi-byte sequences
/// included — passes through unchanged.
pub open spec fn escape_byte(b: u8) -> Seq<u8> {
    if b == 0x22 {
        seq![0x5c, 0x22]
    } else if b == 0x5c {
        seq![0x5c, 0x5c]
    } else if b == 0x08 {
        seq![0x5c, 0x62]
    } else if b == 0x09 {
        seq![0x5c, 0x74]
    } else if b == 0x0a {
        seq![0x5c, 0x6e]
    } else if b == 0x0c {
        seq![0x5c, 0x66]
    } else if b == 0x0d {
        seq![0x5c, 0x72]
    } else if b < 0x20 {
        seq![0x5c, 0x75, 0x30, 0x30, hex_char(b / 16), hex_char(b % 16)]
    } else {
        seq![b]
    }
}

/// A string's bytes, escaped for a JSON string literal.
pub open spec fn json_escaped(s: Seq<u8>) -> Seq<u8>
    decreases s.len(),
{
    if s.len() == 0 {
        Seq::empty()
    } else {
        json_escaped(s.drop_last()) + escape_byte(s.last())
    }
}

/// The `n` least significant nibbles of `x` as hex characters, least
/// significant first.
pub open spec fn hex_digits_rev(x: u128, n: nat) -> Seq<u8>
    decreases n,
{
    if n == 0 {
        Seq::empty()
    } else {
        seq![hex_char((x % 16) as u8)] + hex_digits_rev(x / 16, (n - 1) as nat)
    }
}

/// All 32 hex characters of a 128-bit id, most significant first.
pub open spec fn uuid_digits(x: u128) -> Seq<u8> {
    hex_digits_rev(x, 32).reverse()
}

/// The canonical hyphenated form of a 128-bit id: 36 bytes, the 32 hex
/// characters with a hyphen after positions 8, 12, 16 and 20.
pub open spec fn uuid_hyphenated(x: u128) -> Seq<u8> {
    Seq::new(
        36,
        |j: int|
            if j == 8 || j == 13 || j == 18 || j == 23 {
                0x2du8
            } else {
                uuid_digits(x)[
                    if j < 8 {
                        j
                    } else if j < 13 {
                        j - 1
                    } else if j < 18 {
                        j - 2
                    } else if j < 23 {
                        j - 3
                    } else {
                        j - 4
                    }
                ]
            },
    )
}

/// A JSON boolean.
pub open spec fn bool_json(b: bool) -> Seq<u8> {
    if b {
        "true".spec_bytes()
    } else {
        "false".spec_bytes()
    }
}

/// An optional string field: `null` or a JSON string literal.
pub open spec fn opt_string_json(o: Option<String>) -> Seq<u8> {
    match o {
        Some(s) => "\"".spec_bytes() + json_escaped(encode_utf8(s@)) + "\"".spec_bytes(),
        None => "null".spec_bytes(),
    }
}

/// The wire form of an envelope: a JSON object with a `type`
/// discriminator in snake case and the variant's fields in declaration
/// order — identical on every transport. Ids appear in hyphenated
/// form; string fields are escaped as `escape_byte` says.
pub open spec fn envelope_bytes(m: WsMessage) -> Seq<u8> {
    match m {
        WsMessage::ChatMessage(p) => "{\"type\":\"chat_message\",\"id\":\"".spec_bytes()
            + uuid_hyphenated(p.id) + "\",\"sender_id\":\"".spec_bytes() + uuid_hyphenated(
            p.sender_id.value,
        ) + "\",\"receiver_id\":\"".spec_bytes() + uuid_hyphenated(p.receiver_id.value)
            + "\",\"content\":\"".spec_bytes() + json_escaped(encode_utf8(p.content@))
            + "\",\"image_url\":".spec_bytes() + opt_string_json(p.image_url)
            + ",\"created_at\":\"".spec_bytes() + json_escaped(encode_utf8(p.created_at@))
            + "\"}".spec_bytes(),
        WsMessage::TypingIndicator(p) => "{\"type\":\"typing_indicator\",\"user_id\":\"".spec_bytes()
            + uuid_hyphenated(p.user_id.value) + "\",\"is_typing\":".spec_bytes() + bool_json(
            p.is_typing,
        ) + ",\"conversation_with\":\"".spec_bytes() + uuid_hyphenated(p.conversation_with.value)
            + "\"}".spec_bytes(),
        WsMessage::UserStatus(p) => "{\"type\":\"user_status\",\"user_id\":\"".spec_bytes()
            + uuid_hyphenated(p.user_id.value) + "\",\"is_online\":".spec_bytes() + bool_json(
            p.is_online,
        ) + "}".spec_bytes(),
        WsMessage::TaskUpdated(p) => "{\"type\":\"task_updated\",\"task_id\":\"".spec_bytes()
            + uuid_hyphenated(p.task_id) + "\",\"updated_by\":\"".spec_bytes() + uuid_hyphenated(
            p.updated_by.value,
        ) + "\",\"field\":\"".spec_bytes() + json_escaped(encode_utf8(p.field@))
            + "\",\"old_value\":".spec_bytes() + opt_string_json(p.old_value)
            + ",\"new_value\":\"".spec_bytes() + json_escaped(encode_utf8(p.new_value@))
            + "\"}".spec_bytes(),
        WsMessage::TaskShared(p) => "{\"type\":\"task_shared\",\"task_id\":\"".spec_bytes()
            + uuid_hyphenated(p.task_id) + "\",\"task_title\":\"".spec_bytes() + json_escaped(encode_utf8(p.task_title@)) + "\",\"shared_by\":\"".spec_bytes() + uuid_hyphenated(p.shared_by.value)
            + "\",\"shared_by_username\":\"".spec_bytes() + json_escaped(encode_utf8(p.shared_by_username@)) + "\"}".spec_bytes(),
        WsMessage::TaskMemberRemoved(p) => "{\"type\":\"task_member_removed\",\"task_id\":\"".spec_bytes()
            + uuid_hyphenated(p.task_id) + "\",\"task_title\":\"".spec_bytes() + json_escaped(encode_utf8(p.task_title@)) + "\",\"removed_by\":\"".spec_bytes() + uuid_hyphenated(p.removed_by.value)
            + "\"}".spec_bytes(),
        WsMessage::MessageDelivered(p) => "{\"type\":\"message_delivered\",\"message_id\":\"".spec_bytes()
            + uuid_hyphenated(p.message_id) + "\"}".spec_bytes(),
        WsMessage::Error(p) => "{\"type\":\"error\",\"message\":\"".spec_bytes() + json_escaped(encode_utf8(p.message@)) + "\"}".spec_bytes(),
    }
}

/// Appends a literal's bytes.
#[verifier::loop_isolation(false)]
fn push_bytes(out: &mut Vec<u8>, s: &str)
    ensures
        final(out)@ == old(out)@ + s.spec_bytes(),
{
    let b = s.as_bytes();
    let mut i: usize = 0;
    let n = b.len();
    while i < n
        invariant
            i <= n,
            n == b@.len(),
            out@ =~= old(out)@ + b@.take(i as int),
        decreases n - i,
    {
        out.push(b[i]);
        proof {
            assert(out@ =~= old(out)@ + b@.take(i + 1));
        }
        i += 1;
    }
    proof {
        assert(b@.take(n as int) =~= b@);
    }
}

/// Growing the escaped prefix by one source byte.
proof fn lemma_json_escaped_step(s: Seq<u8>, i: int)
    requires
        0 <= i < s.len(),
    ensures
        json_escaped(s.take(i + 1)) == json_escaped(s.take(i)) + escape_byte(s[i]),
{
    assert(s.take(i + 1).drop_last() =~= s.take(i));
    assert(s.take(i + 1).last() == s[i]);
}

/// Appends a string's bytes, escaped for a JSON string literal.
#[verifier::loop_isolation(false)]
fn push_escaped(out: &mut Vec<u8>, s: &str)
    ensures
        final(out)@ == old(out)@ + json_escaped(s.spec_bytes()),
{
    let b = s.as_bytes();
    let mut i: usize = 0;
    let n = b.len();
    while i < n
        invariant
            i <= n,
            n == b@.len(),
            out@ =~= old(out)@ + json_escaped(b@.take(i as int)),
        decreases n - i,
    {
        let c = b[i];
        if c == 0x22 {
            out.push(0x5c);
            out.push(0x22);
        } else if c == 0x5c {
            out.push(0x5c);
            out.push(0x5c);
        } else if c == 0x08 {
            out.push(0x5c);
            out.push(0x62);
        } else if c == 0x09 {
            out.push(0x5c);
            out.push(0x74);
        } else if c == 0x0a {
            out.push(0x5c);
            out.push(0x6e);
        } else if c == 0x0c {
            out.push(0x5c);
            out.push(0x66);
        } else if c == 0x0d {
            out.push(0x5c);
            out.push(0x72);
        } else if c < 0x20 {
            out.push(0x5c);
            out.push(0x75);
            out.push(0x30);
            out.push(0x30);
            out.push(hex_char_of(c / 16));
            out.push(hex_char_of(c % 16));
        } else {
            out.push(c);
        }
        proof {
            lemma_json_escaped_step(b@, i as int);
            assert(out@ =~= old(out)@ + json_escaped(b@.take(i + 1)));
        }
        i += 1;
    }
    proof {
        assert(b@.take(n as int) =~= b@);
    }
}

/// Lowercase hex digit character, executable.
fn hex_char_of(n: u8) -> (r: u8)
    requires
        n < 16,
    ensures
        r == hex_char(n),
{
    if n < 10 {
        0x30 + n
    } else {
        0x57 + n
    }
}

/// Appends the hyphenated form of a 128-bit id.
#[verifier::loop_isolation(false)]
fn push_uuid(out: &mut Vec<u8>, x: u128)
    ensures
        final(out)@ == old(out)@ + uuid_hyphenated(x),
{
    let mut rev: Vec<u8> = Vec::new();
    let mut cur = x;
    let mut k: usize = 0;
    while k < 32
        invariant
            k <= 32,
            rev@.len() == k,
            hex_digits_rev(x, 32) =~= rev@ + hex_digits_rev(cur, (32 - k) as nat),
        decreases 32 - k,
    {
        let d = (cur % 16) as u8;
        rev.push(hex_char_of(d));
        cur = cur / 16;
        proof {
            assert(hex_digits_rev(x, 32) =~= rev@ + hex_digits_rev(cur, (32 - (k + 1)) as nat));
        }
        k += 1;
    }
    proof {
        assert(hex_digits_rev(x, 32) =~= rev@);
        assert(uuid_digits(x).len() == 32);
        assert forall|m: int| 0 <= m < 32 implies uuid_digits(x)[m] == rev@[31 - m] by {}
    }
    let mut j: usize = 0;
    while j < 36
        invariant
            j <= 36,
            rev@.len() == 32,
            forall|m: int| 0 <= m < 32 ==> uuid_digits(x)[m] == rev@[31 - m],
            out@ =~= old(out)@ + uuid_hyphenated(x).take(j as int),
        decreases 36 - j,
    {
        if j == 8 || j == 13 || j == 18 || j == 23 {
            out.push(0x2d);
        } else {
            let m = if j < 8 {
                j
            } else if j < 13 {
                j - 1
            } else if j < 18 {
                j - 2
            } else if j < 23 {
                j - 3
            } else {
                j - 4
            };
            out.push(rev[31 - m]);
        }
        proof {
            assert(out@ =~= old(out)@ + uuid_hyphenated(x).take(j + 1));
        }
        j += 1;
    }
    proof {
        assert(uuid_hyphenated(x).take(36) =~= uuid_hyphenated(x));
    }
}

/// Appends a JSON boolean.
fn push_bool(out: &mut Vec<u8>, b: bool)
    ensures
        final(out)@ == old(out)@ + bool_json(b),
{
    if b {
        push_bytes(out, "true");
    } else {
        push_bytes(out, "false");
    }
}

/// Appends an optional string field: `null` or an escaped, quoted
/// string.
fn push_opt_string(out: &mut Vec<u8>, o: &Option<String>)
    ensures
        final(out)@ == old(out)@ + opt_string_json(*o),
{
    match o {
        Some(s) => {
            push_bytes(out, "\"");
            push_escaped(out, s.as_str());
            push_bytes(out, "\"");
            proof {
                assert(out@ =~= old(out)@ + opt_string_json(*o));
            }
        },
        None => {
            push_bytes(out, "null");
        },
    }
}

/// Serializes one envelope to its wire form: the byte-for-byte JSON
/// object `envelope_bytes` describes. Both transports send exactly
/// these bytes as the text of a frame or event.
pub fn encode_envelope(m: &WsMessage) -> (r: Vec<u8>)
    ensures
        r@ == envelope_bytes(*m),
{
    let mut out: Vec<u8> = Vec::new();
    match m {
        WsMessage::ChatMessage(p) => {
            push_bytes(&mut out, "{\"type\":\"chat_message\",\"id\":\"");
            push_uuid(&mut out, p.id);
            push_bytes(&mut out, "\",\"sender_id\":\"");
            push_uuid(&mut out, p.sender_id.value);
            push_bytes(&mut out, "\",\"receiver_id\":\"");
            push_uuid(&mut out, p.receiver_id.value);
            push_bytes(&mut out, "\",\"content\":\"");
            push_escaped(&mut out, p.content.as_str());
            push_bytes(&mut out, "\",\"image_url\":");
            push_opt_string(&mut out, &p.image_url);
            push_bytes(&mut out, ",\"created_at\":\"");
            push_escaped(&mut out, p.created_at.as_str());
            push_bytes(&mut out, "\"}");
        },
        WsMessage::TypingIndicator(p) => {
            push_bytes(&mut out, "{\"type\":\"typing_indicator\",\"user_id\":\"");
            push_uuid(&mut out, p.user_id.value);
            push_bytes(&mut out, "\",\"is_typing\":");
            push_bool(&mut out, p.is_typing);
            push_bytes(&mut out, ",\"conversation_with\":\"");
            push_uuid(&mut out, p.conversation_with.value);
            push_bytes(&mut out, "\"}");
        },
        WsMessage::UserStatus(p) => {
            push_bytes(&mut out, "{\"type\":\"user_status\",\"user_id\":\"");
            push_uuid(&mut out, p.user_id.value);
            push_bytes(&mut out, "\",\"is_online\":");
            push_bool(&mut out, p.is_online);
            push_bytes(&mut out, "}");
        },
        WsMessage::TaskUpdated(p) => {
            push_bytes(&mut out, "{\"type\":\"task_updated\",\"task_id\":\"");
            push_uuid(&mut out, p.task_id);
            push_bytes(&mut out, "\",\"updated_by\":\"");
            push_uuid(&mut out, p.updated_by.value);
            push_bytes(&mut out, "\",\"field\":\"");
            push_escaped(&mut out, p.field.as_str());
            push_bytes(&mut out, "\",\"old_value\":");
            push_opt_string(&mut out, &p.old_value);
            push_bytes(&mut out, ",\"new_value\":\"");
            push_escaped(&mut out, p.new_value.as_str());
            push_bytes(&mut out, "\"}");
        },
        WsMessage::TaskShared(p) => {
            push_bytes(&mut out, "{\"type\":\"task_shared\",\"task_id\":\"");
            push_uuid(&mut out, p.task_id);
            push_bytes(&mut out, "\",\"task_title\":\"");
            push_escaped(&mut out, p.task_title.as_str());
            push_bytes(&mut out, "\",\"shared_by\":\"");
            push_uuid(&mut out, p.shared_by.value);
            push_bytes(&mut out, "\",\"shared_by_username\":\"");
            push_escaped(&mut out, p.shared_by_username.as_str());
            push_bytes(&mut out, "\"}");
        },
        WsMessage::TaskMemberRemoved(p) => {
            push_bytes(&mut out, "{\"type\":\"task_member_removed\",\"task_id\":\"");
            push_uuid(&mut out, p.task_id);
            push_bytes(&mut out, "\",\"task_title\":\"");
            push_escaped(&mut out, p.task_title.as_str());
            push_bytes(&mut out, "\",\"removed_by\":\"");
            push_uuid(&mut out, p.removed_by.value);
            push_bytes(&mut out, "\"}");
        },
        WsMessage::MessageDelivered(p) => {
            push_bytes(&mut out, "{\"type\":\"message_delivered\",\"message_id\":\"");
            push_uuid(&mut out, p.message_id);
            push_bytes(&mut out, "\"}");
        },
        WsMessage::Error(p) => {
            push_bytes(&mut out, "{\"type\":\"error\",\"message\":\"");
            push_escaped(&mut out, p.message.as_str());
            push_bytes(&mut out, "\"}");
        },
    }
    proof {
        assert(out@ =~= envelope_bytes(*m));
    }
    out
}

} // verus!
