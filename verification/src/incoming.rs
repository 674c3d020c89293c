//! Handling of incoming messages to the controller from the dashboard.
//!
//! A command arrives as one JSON object inside a byte stream.  The framing
//! (finding where the object ends) and the decoding (turning its text into a
//! [`Command`]) are both plain functions on bytes and live here, verified;
//! the shell only pulls bytes off the wire and hands them over.

use crate::text::ascii_bytes;
use crate::text::bool_bytes;
use crate::text::dec_bytes;
use crate::text::push_ascii;
use crate::text::push_bool;
use crate::text::push_dec_u64;
use vstd::prelude::*;

verus! {

/// A parsed command received from the controller, which is now ready to be
/// executed.
#[derive(Debug, Clone, Copy, PartialEq, Eq, Structural)]
pub enum Command {
    /// The dashboard requested that the driver be actuated to a logic level.
    Actuate {
        /// The index of the driver to actuate.
        /// The controller must verify that this names a real driver.
        driver_id: u8,
        /// The logic level that the driver must be actuated to.
        value: bool,
    },
    /// The dashboard requested to begin an ignition procedure immediately.
    Ignition,
    /// The dashboard requested to begin an emergency stop immediately.
    EmergencyStop,
}

/// The ways in which parsing an incoming command can fail.
#[derive(Debug, PartialEq, Eq)]
pub enum Error {
    /// The message was malformed or illegal JSON.  The value inside this
    /// variant is the sequence of bytes which contained the malformed
    /// message.
    Malformed(Vec<u8>),
    /// The stream ended before a full object was read.
    SourceClosed,
}

/// The scanner state while looking for the end of one top-level JSON
/// object: how many braces are open, whether the scanner is inside a string
/// literal, and whether the previous byte was an unconsumed escape.
///
/// `Done` means the object just closed; `Bad` means a closing brace arrived
/// before any object was open.  Both are final.
pub enum Scan {
    /// Still scanning.
    More {
        /// The number of currently open braces.
        depth: nat,
        /// Whether the scanner is inside a string literal.
        in_string: bool,
        /// Whether the previous byte was an escaping backslash that has not
        /// been consumed yet.
        escaped: bool,
    },
    /// The outermost object just closed.
    Done,
    /// A closing brace arrived at depth zero.
    Bad,
}

/// One step of the object scanner.
pub open spec fn scan_byte(state: Scan, c: u8) -> Scan {
    match state {
        Scan::More { depth, in_string, escaped } => {
            if c == 0x7b && !in_string {  // '{'
                Scan::More { depth: depth + 1, in_string, escaped: false }
            } else if c == 0x7d && !in_string {  // '}'
                if depth == 0 {
                    Scan::Bad
                } else if depth == 1 {
                    Scan::Done
                } else {
                    Scan::More { depth: (depth - 1) as nat, in_string, escaped: false }
                }
            } else if c == 0x22 {  // an unescaped quote toggles the string
                Scan::More { depth, in_string: in_string == escaped, escaped: false }
            } else {
                Scan::More { depth, in_string, escaped: c == 0x5c && !escaped }
            }
        }
        Scan::Done => Scan::Done,
        Scan::Bad => Scan::Bad,
    }
}

/// The scanner state after consuming all of `bytes`.
pub open spec fn scan(bytes: Seq<u8>) -> Scan
    decreases bytes.len(),
{
    if bytes.len() == 0 {
        Scan::More { depth: 0, in_string: false, escaped: false }
    } else {
        scan_byte(scan(bytes.drop_last()), bytes.last())
    }
}

/// Where the first top-level JSON object in a byte buffer ends, if it does.
#[derive(Debug, PartialEq, Eq, Structural)]
pub enum Frame {
    /// The first `len` bytes hold one complete top-level object (and
    /// whatever preceded its opening brace).
    Complete {
        /// How many bytes belong to the object.
        len: usize,
    },
    /// The first `len` bytes end in a closing brace that no opening brace
    /// matches.
    Unbalanced {
        /// How many bytes were consumed up to and including the offending
        /// brace.
        len: usize,
    },
    /// The buffer ends before the object does; more bytes are needed.
    Incomplete,
}

/// Find the end of the first top-level JSON object in `bytes`, tracking
/// brace depth with string-literal and backslash-escape awareness.
pub fn frame_object(bytes: &[u8]) -> (frame: Frame)
    ensures
        frame matches Frame::Complete { len } ==> {
            &&& len <= bytes@.len()
            &&& scan(bytes@.take(len as int)) is Done
            &&& forall|k: int| 0 <= k < len ==> #[trigger] scan(bytes@.take(k)) is More
        },
        frame matches Frame::Unbalanced { len } ==> {
            &&& len <= bytes@.len()
            &&& scan(bytes@.take(len as int)) is Bad
            &&& forall|k: int| 0 <= k < len ==> #[trigger] scan(bytes@.take(k)) is More
        },
        frame is Incomplete ==> forall|k: int|
            0 <= k <= bytes@.len() ==> #[trigger] scan(bytes@.take(k)) is More,
{
    let n = bytes.len();
    let mut depth: usize = 0;
    let mut in_string = false;
    let mut escaped = false;
    let mut i: usize = 0;
    while i < n
        invariant
            n == bytes@.len(),
            i <= n,
            depth <= i,
            scan(bytes@.take(i as int)) == (Scan::More {
                depth: depth as nat,
                in_string,
                escaped,
            }),
            forall|k: int| 0 <= k < i ==> #[trigger] scan(bytes@.take(k)) is More,
        decreases n - i,
    {
        let c = bytes[i];
        proof {
            let t = bytes@.take(i + 1);
            assert(t.drop_last() =~= bytes@.take(i as int));
            assert(t.last() == bytes@[i as int]);
        }
        if c == 0x7b && !in_string {
            depth += 1;
            escaped = false;
        } else if c == 0x7d && !in_string {
            if depth == 0 {
                return Frame::Unbalanced { len: i + 1 };
            }
            if depth == 1 {
                return Frame::Complete { len: i + 1 };
            }
            depth -= 1;
            escaped = false;
        } else if c == 0x22 {
            in_string = in_string == escaped;
            escaped = false;
        } else {
            escaped = c == 0x5c && !escaped;
        }
        i += 1;
    }
    proof {
        assert(bytes@.take(n as int) =~= bytes@);
    }
    Frame::Incomplete
}

/// Whether `c` is JSON whitespace.
pub open spec fn is_json_ws(c: u8) -> bool {
    c == 0x20 || c == 0x09 || c == 0x0a || c == 0x0d
}

/// Whether the scanner stands inside a string literal.
pub open spec fn inside_string(state: Scan) -> bool {
    match state {
        Scan::More { in_string, .. } => in_string,
        _ => false,
    }
}

/// `bytes` with JSON whitespace removed everywhere outside string
/// literals.  Whitespace inside a string literal is content and stays put.
pub open spec fn normalized(bytes: Seq<u8>) -> Seq<u8>
    decreases bytes.len(),
{
    if bytes.len() == 0 {
        Seq::empty()
    } else {
        normalized(bytes.drop_last()) + (if is_json_ws(bytes.last()) && !inside_string(
            scan(bytes.drop_last()),
        ) {
            Seq::empty()
        } else {
            seq![bytes.last()]
        })
    }
}

/// The `type` member of an `Actuate` object.
pub open spec fn actuate_member_type() -> Seq<u8> {
    ascii_bytes("\"type\":\"Actuate\""@)
}

/// The key of the `driver_id` member, up to the digits.
pub open spec fn member_driver_key() -> Seq<u8> {
    ascii_bytes("\"driver_id\":"@)
}

/// The `value` member of an `Actuate` object.
pub open spec fn actuate_member_value(value: bool) -> Seq<u8> {
    ascii_bytes("\"value\":"@) + bool_bytes(value)
}

/// What precedes the driver ID's digits in a compact `Actuate` object
/// whose three members come in field order `perm`, one of the six possible
/// orders: `type` first (`driver_id` then `value`, or `value` then
/// `driver_id`), `driver_id` first, or `value` first.
pub open spec fn actuate_prefix_perm(perm: int, value: bool) -> Seq<u8> {
    if perm == 0 {
        ascii_bytes("{"@) + actuate_member_type() + ascii_bytes(","@) + member_driver_key()
    } else if perm == 1 {
        ascii_bytes("{"@) + actuate_member_type() + ascii_bytes(","@) + actuate_member_value(value)
            + ascii_bytes(","@) + member_driver_key()
    } else if perm == 2 || perm == 3 {
        ascii_bytes("{"@) + member_driver_key()
    } else if perm == 4 {
        ascii_bytes("{"@) + actuate_member_value(value) + ascii_bytes(","@) + actuate_member_type()
            + ascii_bytes(","@) + member_driver_key()
    } else {
        ascii_bytes("{"@) + actuate_member_value(value) + ascii_bytes(","@) + member_driver_key()
    }
}

/// What follows the driver ID's digits in the same object.
pub open spec fn actuate_suffix_perm(perm: int, value: bool) -> Seq<u8> {
    if perm == 0 {
        ascii_bytes(","@) + actuate_member_value(value) + ascii_bytes("}"@)
    } else if perm == 1 {
        ascii_bytes("}"@)
    } else if perm == 2 {
        ascii_bytes(","@) + actuate_member_type() + ascii_bytes(","@) + actuate_member_value(value)
            + ascii_bytes("}"@)
    } else if perm == 3 {
        ascii_bytes(","@) + actuate_member_value(value) + ascii_bytes(","@) + actuate_member_type()
            + ascii_bytes("}"@)
    } else if perm == 4 {
        ascii_bytes("}"@)
    } else {
        ascii_bytes(","@) + actuate_member_type() + ascii_bytes("}"@)
    }
}

/// The compact `Actuate` object with its fields in order `perm`.
pub open spec fn actuate_json_perm(driver_id: u8, value: bool, perm: int) -> Seq<u8> {
    actuate_prefix_perm(perm, value) + dec_bytes(driver_id as nat) + actuate_suffix_perm(
        perm,
        value,
    )
}

/// The compact rendering of a command with its fields in the documented
/// order.
pub open spec fn command_json(cmd: Command) -> Seq<u8> {
    match cmd {
        Command::Actuate { driver_id, value } => actuate_json_perm(driver_id, value, 0),
        Command::Ignition => ascii_bytes("{\"type\":\"Ignition\"}"@),
        Command::EmergencyStop => ascii_bytes("{\"type\":\"EmergencyStop\"}"@),
    }
}

/// Whether `object` - a whitespace-normalized top-level object - spells
/// the command `cmd`: the members of the command's documented JSON shape,
/// each exactly once, in any order, the driver ID in canonical decimal.
pub open spec fn is_command_object(object: Seq<u8>, cmd: Command) -> bool {
    match cmd {
        Command::Actuate { driver_id, value } => exists|perm: int|
            0 <= perm < 6 && object == actuate_json_perm(driver_id, value, perm),
        Command::Ignition => object == command_json(Command::Ignition),
        Command::EmergencyStop => object == command_json(Command::EmergencyStop),
    }
}

/// The numeric value of a run of ASCII digits, most significant first.
pub open spec fn digits_value(digits: Seq<u8>) -> int
    decreases digits.len(),
{
    if digits.len() == 0 {
        0
    } else {
        digits_value(digits.drop_last()) * 10 + (digits.last() - 0x30)
    }
}

/// Reading back a decimal rendering gives the number it came from.
pub proof fn lemma_digits_value_dec(n: nat)
    ensures
        digits_value(dec_bytes(n)) == n,
    decreases n,
{
    if n < 10 {
        assert(dec_bytes(n) == seq![(0x30 + n) as u8]);
        assert(dec_bytes(n).drop_last() =~= Seq::<u8>::empty());
        assert(dec_bytes(n).last() == (0x30 + n) as u8);
        assert((0x30 + n) as u8 - 0x30 == n);
        assert(digits_value(Seq::<u8>::empty()) == 0);
        assert(digits_value(dec_bytes(n)) == digits_value(dec_bytes(n).drop_last()) * 10 + (
        dec_bytes(n).last() - 0x30));
    } else {
        lemma_digits_value_dec(n / 10);
        assert(dec_bytes(n) == dec_bytes(n / 10).push((0x30 + n % 10) as u8));
        assert(dec_bytes(n).drop_last() =~= dec_bytes(n / 10));
        assert(dec_bytes(n).last() == (0x30 + n % 10) as u8);
        assert((0x30 + n % 10) as u8 - 0x30 == n % 10);
        assert(digits_value(dec_bytes(n)) == digits_value(dec_bytes(n / 10)) * 10 + n % 10);
    }
}

/// A number below 1000 renders as at most three digits.
pub proof fn lemma_dec_bytes_len(n: nat)
    requires
        n < 1000,
    ensures
        1 <= dec_bytes(n).len() <= 3,
{
    if n < 10 {
        assert(dec_bytes(n).len() == 1);
    } else if n < 100 {
        assert(dec_bytes(n / 10).len() == 1);
        assert(dec_bytes(n).len() == 2);
    } else {
        assert(dec_bytes(n / 10 / 10).len() == 1);
        assert(dec_bytes(n / 10).len() == 2);
        assert(dec_bytes(n).len() == 3);
    }
}

/// A run of at most three digits names a number below 1000.
proof fn lemma_digits_value_bound(digits: Seq<u8>)
    requires
        forall|i: int| 0 <= i < digits.len() ==> 0x30 <= #[trigger] digits[i] <= 0x39,
    ensures
        digits_value(digits) >= 0,
        digits.len() <= 1 ==> digits_value(digits) <= 9,
        digits.len() <= 2 ==> digits_value(digits) <= 99,
        digits.len() <= 3 ==> digits_value(digits) <= 999,
    decreases digits.len(),
{
    if digits.len() > 0 {
        lemma_digits_value_bound(digits.drop_last());
    }
}

/// How an `Actuate` rendering is laid out, whatever the field order: the
/// fixed part before the digits, then the digits of the driver ID, then a
/// byte that is no digit.
proof fn lemma_actuate_perm_layout(id: u8, value: bool, perm: int)
    requires
        0 <= perm < 6,
    ensures
        ({
            let rendering = actuate_json_perm(id, value, perm);
            let prefix = actuate_prefix_perm(perm, value);
            let digits = dec_bytes(id as nat);
            &&& rendering.len() > prefix.len() + digits.len()
            &&& rendering.subrange(0, prefix.len() as int) == prefix
            &&& rendering.subrange(prefix.len() as int, prefix.len() + digits.len() as int)
                == digits
            &&& !(0x30 <= rendering[prefix.len() + digits.len() as int] <= 0x39)
            &&& 1 <= digits.len() <= 3
            &&& forall|m: int| 0 <= m < digits.len() ==> 0x30 <= #[trigger] digits[m] <= 0x39
        }),
{
    let rendering = actuate_json_perm(id, value, perm);
    let prefix = actuate_prefix_perm(perm, value);
    let digits = dec_bytes(id as nat);
    let suffix = actuate_suffix_perm(perm, value);
    crate::text::lemma_dec_bytes_are_digits(id as nat);
    lemma_dec_bytes_len(id as nat);
    reveal_strlit(",");
    reveal_strlit("}");
    assert(rendering.subrange(0, prefix.len() as int) =~= prefix);
    assert(rendering.subrange(prefix.len() as int, prefix.len() + digits.len() as int) =~= digits);
    assert(rendering[prefix.len() + digits.len() as int] == suffix[0]);
    assert(suffix[0] == ascii_bytes(","@)[0] || suffix[0] == ascii_bytes("}"@)[0]);
}

/// Whether the first bytes of `data` are exactly `prefix`.
fn has_prefix(data: &Vec<u8>, prefix: &Vec<u8>) -> (is: bool)
    ensures
        is == (data@.len() >= prefix@.len() && data@.subrange(0, prefix@.len() as int)
            == prefix@),
{
    let n = prefix.len();
    if data.len() < n {
        return false;
    }
    let mut i: usize = 0;
    while i < n
        invariant
            n == prefix@.len(),
            data@.len() >= n,
            i <= n,
            forall|k: int| 0 <= k < i ==> data@[k] == prefix@[k],
        decreases n - i,
    {
        if data[i] != prefix[i] {
            return false;
        }
        i += 1;
    }
    proof {
        assert(data@.subrange(0, n as int) =~= prefix@);
    }
    true
}

/// Whether two byte buffers hold the same bytes.
fn bytes_equal(a: &Vec<u8>, b: &Vec<u8>) -> (eq: bool)
    ensures
        eq == (a@ == b@),
{
    let n = a.len();
    if b.len() != n {
        return false;
    }
    let mut i: usize = 0;
    while i < n
        invariant
            n == a@.len(),
            n == b@.len(),
            i <= n,
            forall|k: int| 0 <= k < i ==> a@[k] == b@[k],
        decreases n - i,
    {
        if a[i] != b[i] {
            return false;
        }
        i += 1;
    }
    proof {
        assert(a@ =~= b@);
    }
    true
}

/// Remove the JSON whitespace outside string literals from `bytes`,
/// tracking the same scanner state the framing uses.
fn normalize(bytes: &[u8]) -> (out: Vec<u8>)
    ensures
        out@ == normalized(bytes@),
{
    let mut out: Vec<u8> = Vec::new();
    let n = bytes.len();
    let mut depth: usize = 0;
    let mut in_string = false;
    let mut escaped = false;
    let mut closed = false;
    let mut broken = false;
    let mut i: usize = 0;
    while i < n
        invariant
            n == bytes@.len(),
            i <= n,
            depth <= i,
            !(closed && broken),
            !closed && !broken ==> scan(bytes@.take(i as int)) == (Scan::More {
                depth: depth as nat,
                in_string,
                escaped,
            }),
            closed ==> scan(bytes@.take(i as int)) is Done,
            broken ==> scan(bytes@.take(i as int)) is Bad,
            out@ == normalized(bytes@.take(i as int)),
        decreases n - i,
    {
        let c = bytes[i];
        proof {
            let t = bytes@.take(i + 1);
            assert(t.drop_last() =~= bytes@.take(i as int));
            assert(t.last() == bytes@[i as int]);
        }
        let is_ws = c == 0x20 || c == 0x09 || c == 0x0a || c == 0x0d;
        let in_string_now = !closed && !broken && in_string;
        if !is_ws || in_string_now {
            out.push(c);
        }
        // advance the scanner; its final states absorb
        if closed || broken {
        } else if c == 0x7b && !in_string {
            depth += 1;
            escaped = false;
        } else if c == 0x7d && !in_string {
            if depth == 0 {
                broken = true;
            } else if depth == 1 {
                closed = true;
            } else {
                depth -= 1;
                escaped = false;
            }
        } else if c == 0x22 {
            in_string = in_string == escaped;
            escaped = false;
        } else {
            escaped = c == 0x5c && !escaped;
        }
        i += 1;
    }
    proof {
        assert(bytes@.take(n as int) =~= bytes@);
    }
    out
}

/// Append the `type` member of an `Actuate` object to `buf`.
fn push_member_type(buf: &mut Vec<u8>)
    ensures
        final(buf)@ == old(buf)@ + actuate_member_type(),
{
    proof {
        reveal_strlit("\"type\":\"Actuate\"");
    }
    push_ascii(buf, "\"type\":\"Actuate\"");
}

/// Append the key of the `driver_id` member to `buf`.
fn push_driver_key(buf: &mut Vec<u8>)
    ensures
        final(buf)@ == old(buf)@ + member_driver_key(),
{
    proof {
        reveal_strlit("\"driver_id\":");
    }
    push_ascii(buf, "\"driver_id\":");
}

/// Append the `value` member of an `Actuate` object to `buf`.
fn push_member_value(buf: &mut Vec<u8>, value: bool)
    ensures
        final(buf)@ == old(buf)@ + actuate_member_value(value),
{
    proof {
        reveal_strlit("\"value\":");
    }
    push_ascii(buf, "\"value\":");
    push_bool(buf, value);
}

/// Append what precedes the driver ID's digits for field order `perm`.
fn push_actuate_prefix(buf: &mut Vec<u8>, perm: u8, value: bool)
    requires
        perm < 6,
    ensures
        final(buf)@ == old(buf)@ + actuate_prefix_perm(perm as int, value),
{
    proof {
        reveal_strlit("{");
        reveal_strlit(",");
    }
    push_ascii(buf, "{");
    if perm == 0 {
        push_member_type(buf);
        push_ascii(buf, ",");
        push_driver_key(buf);
    } else if perm == 1 {
        push_member_type(buf);
        push_ascii(buf, ",");
        push_member_value(buf, value);
        push_ascii(buf, ",");
        push_driver_key(buf);
    } else if perm == 2 || perm == 3 {
        push_driver_key(buf);
    } else if perm == 4 {
        push_member_value(buf, value);
        push_ascii(buf, ",");
        push_member_type(buf);
        push_ascii(buf, ",");
        push_driver_key(buf);
    } else {
        push_member_value(buf, value);
        push_ascii(buf, ",");
        push_driver_key(buf);
    }
}

/// Render the compact `Actuate` object for field order `perm`.
fn render_actuate_perm(driver_id: u8, value: bool, perm: u8) -> (out: Vec<u8>)
    requires
        perm < 6,
    ensures
        out@ == actuate_json_perm(driver_id, value, perm as int),
{
    let mut out: Vec<u8> = Vec::new();
    push_actuate_prefix(&mut out, perm, value);
    push_dec_u64(&mut out, driver_id as u64);
    proof {
        reveal_strlit(",");
        reveal_strlit("}");
    }
    if perm == 0 {
        push_ascii(&mut out, ",");
        push_member_value(&mut out, value);
        push_ascii(&mut out, "}");
    } else if perm == 1 || perm == 4 {
        push_ascii(&mut out, "}");
    } else if perm == 2 {
        push_ascii(&mut out, ",");
        push_member_type(&mut out);
        push_ascii(&mut out, ",");
        push_member_value(&mut out, value);
        push_ascii(&mut out, "}");
    } else if perm == 3 {
        push_ascii(&mut out, ",");
        push_member_value(&mut out, value);
        push_ascii(&mut out, ",");
        push_member_type(&mut out);
        push_ascii(&mut out, "}");
    } else {
        push_ascii(&mut out, ",");
        push_member_type(&mut out);
        push_ascii(&mut out, "}");
    }
    proof {
        assert(out@ =~= actuate_json_perm(driver_id, value, perm as int));
    }
    out
}

/// Render the compact JSON form of `cmd`, fields in documented order.
pub fn render_command_json(cmd: &Command) -> (out: Vec<u8>)
    ensures
        out@ == command_json(*cmd),
{
    match cmd {
        Command::Actuate { driver_id, value } => render_actuate_perm(*driver_id, *value, 0),
        Command::Ignition => {
            let mut out: Vec<u8> = Vec::new();
            proof {
                reveal_strlit("{\"type\":\"Ignition\"}");
            }
            push_ascii(&mut out, "{\"type\":\"Ignition\"}");
            out
        }
        Command::EmergencyStop => {
            let mut out: Vec<u8> = Vec::new();
            proof {
                reveal_strlit("{\"type\":\"EmergencyStop\"}");
            }
            push_ascii(&mut out, "{\"type\":\"EmergencyStop\"}");
            out
        }
    }
}

/// Try to read `object` as the compact `Actuate` rendering with field
/// order `perm` and level `value`.
fn try_actuate(object: &Vec<u8>, perm: u8, value: bool) -> (result: Option<Command>)
    requires
        perm < 6,
    ensures
        result matches Some(cmd) ==> (cmd matches Command::Actuate { driver_id, value: level }
            && level == value && object@ == actuate_json_perm(driver_id, value, perm as int)),
        result is None ==> forall|id: u8| object@ != actuate_json_perm(id, value, perm as int),
{
    let mut prefix: Vec<u8> = Vec::new();
    push_actuate_prefix(&mut prefix, perm, value);
    if !has_prefix(object, &prefix) {
        proof {
            assert forall|id: u8| object@ != actuate_json_perm(id, value, perm as int) by {
                lemma_actuate_perm_layout(id, value, perm as int);
            }
        }
        return None;
    }

    let start = prefix.len();
    let n = object.len();
    let mut j: usize = start;
    let mut value_acc: u32 = 0;
    while j < n && j - start < 3 && object[j] >= 0x30 && object[j] <= 0x39
        invariant
            start == actuate_prefix_perm(perm as int, value).len(),
            n == object@.len(),
            start <= j <= n,
            j - start <= 3,
            forall|k: int| start <= k < j ==> 0x30 <= #[trigger] object@[k] <= 0x39,
            value_acc == digits_value(object@.subrange(start as int, j as int)),
            value_acc <= 999,
        decreases n - j,
    {
        proof {
            lemma_digits_value_bound(object@.subrange(start as int, j as int));
            assert(object@.subrange(start as int, j + 1).drop_last() =~= object@.subrange(
                start as int,
                j as int,
            ));
        }
        value_acc = value_acc * 10 + (object[j] - 0x30) as u32;
        j += 1;
        proof {
            lemma_digits_value_bound(object@.subrange(start as int, j as int));
        }
    }
    let ghost digits = object@.subrange(start as int, j as int);

    // the digits must be followed by a non-digit, be non-empty, canonical,
    // and fit a u8; rather than checking each rule, build the candidate
    // rendering and compare
    if j == start || value_acc > 255 || (j < n && j - start == 3 && object[j] >= 0x30 && object[j]
        <= 0x39) {
        proof {
            assert forall|id: u8| object@ != actuate_json_perm(id, value, perm as int) by {
                lemma_actuate_perm_layout(id, value, perm as int);
                lemma_digits_value_dec(id as nat);
                if object@ == actuate_json_perm(id, value, perm as int) {
                    let d = dec_bytes(id as nat);
                    assert(object@.subrange(start as int, start + d.len()) == d);
                    // the scanned run covers exactly the rendered digits
                    assert(!(0x30 <= object@[start + d.len()] <= 0x39));
                    if (j as int) < start + d.len() {
                        assert(0x30 <= object@[j as int] <= 0x39);
                        assert(false);
                    }
                    if (j as int) > start + d.len() {
                        assert(0x30 <= object@[start + d.len()] <= 0x39);
                        assert(false);
                    }
                    assert(digits == d);
                    assert(value_acc == id);
                    assert(false);
                }
            }
        }
        return None;
    }

    let driver_id = value_acc as u8;
    let candidate = render_actuate_perm(driver_id, value, perm);
    if bytes_equal(object, &candidate) {
        return Some(Command::Actuate { driver_id, value });
    }

    proof {
        assert forall|id: u8| object@ != actuate_json_perm(id, value, perm as int) by {
            lemma_actuate_perm_layout(id, value, perm as int);
            lemma_digits_value_dec(id as nat);
            if object@ == actuate_json_perm(id, value, perm as int) {
                let d = dec_bytes(id as nat);
                assert(object@.subrange(start as int, start + d.len()) == d);
                assert(!(0x30 <= object@[start + d.len()] <= 0x39));
                if (j as int) < start + d.len() {
                    assert(0x30 <= object@[j as int] <= 0x39);
                    assert(false);
                }
                if (j as int) > start + d.len() {
                    assert(0x30 <= object@[start + d.len()] <= 0x39);
                    assert(false);
                }
                assert(digits == d);
                assert(value_acc == id);
                assert(false);
            }
        }
    }
    None
}

/// Decode one framed command object.
///
/// Whitespace is insignificant outside string literals.  A command is
/// accepted exactly when the whitespace-normalized object is one of the
/// documented command shapes: the tag, and for `Actuate` the driver ID in
/// canonical decimal and the level, each field exactly once, in any order.
fn decode_command(bytes: &[u8]) -> (result: Option<Command>)
    ensures
        result matches Some(cmd) ==> is_command_object(normalized(bytes@), cmd),
        result is None ==> forall|cmd: Command| !is_command_object(normalized(bytes@), cmd),
{
    let object = normalize(bytes);

    let ignition = render_command_json(&Command::Ignition);
    if bytes_equal(&object, &ignition) {
        return Some(Command::Ignition);
    }
    let estop = render_command_json(&Command::EmergencyStop);
    if bytes_equal(&object, &estop) {
        return Some(Command::EmergencyStop);
    }

    let mut perm: u8 = 0;
    while perm < 6
        invariant
            perm <= 6,
            object@ == normalized(bytes@),
            object@ != command_json(Command::Ignition),
            object@ != command_json(Command::EmergencyStop),
            forall|id: u8, v: bool, q: int|
                0 <= q < perm ==> object@ != #[trigger] actuate_json_perm(id, v, q),
        decreases 6 - perm,
    {
        if let Some(cmd) = try_actuate(&object, perm, true) {
            proof {
                assert(is_command_object(object@, cmd));
            }
            return Some(cmd);
        }
        if let Some(cmd) = try_actuate(&object, perm, false) {
            proof {
                assert(is_command_object(object@, cmd));
            }
            return Some(cmd);
        }
        proof {
            assert forall|id: u8, v: bool, q: int|
                0 <= q < perm + 1 implies object@ != #[trigger] actuate_json_perm(id, v, q) by {
                if q == perm {
                    if v {
                        assert(object@ != actuate_json_perm(id, true, perm as int));
                    } else {
                        assert(object@ != actuate_json_perm(id, false, perm as int));
                    }
                }
            }
        }
        perm += 1;
    }
    proof {
        assert forall|cmd: Command| !is_command_object(object@, cmd) by {
            match cmd {
                Command::Actuate { driver_id, value } => {
                    assert(forall|q: int|
                        0 <= q < 6 ==> object@ != #[trigger] actuate_json_perm(
                            driver_id,
                            value,
                            q,
                        ));
                }
                _ => {}
            }
        }
    }
    None
}

impl Command {
    /// Parse an incoming buffer and extract the next command.
    ///
    /// The first brace-balanced object in `bytes` is located with
    /// [`frame_object`] and decoded; on success the command is returned
    /// together with the number of bytes consumed, so a caller feeding a
    /// stream knows where the next object starts.
    ///
    /// # Errors
    ///
    /// `Error::SourceClosed` when the buffer ends before the object does;
    /// `Error::Malformed` - carrying the consumed bytes - when a closing
    /// brace arrives before any object is open, or when the object is not a
    /// command.
    pub fn parse(bytes: &[u8]) -> (result: Result<(Command, usize), Error>)
        ensures
            result matches Ok((cmd, consumed)) ==> {
                &&& consumed <= bytes@.len()
                &&& scan(bytes@.take(consumed as int)) is Done
                &&& forall|k: int| 0 <= k < consumed ==> #[trigger] scan(bytes@.take(k)) is More
                &&& is_command_object(normalized(bytes@.take(consumed as int)), cmd)
            },
            result == Err::<(Command, usize), Error>(Error::SourceClosed) <==> forall|k: int|
                0 <= k <= bytes@.len() ==> #[trigger] scan(bytes@.take(k)) is More,
            result matches Err(Error::Malformed(buffer)) ==> {
                &&& buffer@.len() <= bytes@.len()
                &&& buffer@ == bytes@.take(buffer@.len() as int)
                &&& forall|k: int| 0 <= k < buffer@.len() ==> #[trigger] scan(bytes@.take(k)) is More
                &&& (scan(buffer@) is Bad || (scan(buffer@) is Done && forall|cmd: Command|
                    !is_command_object(normalized(buffer@), cmd)))
            },
    {
        match frame_object(bytes) {
            Frame::Incomplete => Err(Error::SourceClosed),
            Frame::Unbalanced { len } => {
                let mut buffer: Vec<u8> = Vec::new();
                buffer.extend_from_slice(slice_take(bytes, len));
                proof {
                    assert(buffer@ =~= bytes@.take(len as int));
                }
                Err(Error::Malformed(buffer))
            }
            Frame::Complete { len } => {
                let object = slice_take(bytes, len);
                match decode_command(object) {
                    Some(cmd) => Ok((cmd, len)),
                    None => {
                        let mut buffer: Vec<u8> = Vec::new();
                        buffer.extend_from_slice(object);
                        proof {
                            assert(buffer@ =~= bytes@.take(len as int));
                        }
                        Err(Error::Malformed(buffer))
                    }
                }
            }
        }
    }
}

/// The first `len` bytes of `bytes`.
fn slice_take(bytes: &[u8], len: usize) -> (prefix: &[u8])
    requires
        len <= bytes@.len(),
    ensures
        prefix@ == bytes@.take(len as int),
{
    let prefix = &bytes[0..len];
    proof {
        assert(prefix@ =~= bytes@.take(len as int));
    }
    prefix
}

/// Normalizing bytes that hold no whitespace leaves them as they are.
proof fn lemma_normalized_identity(bytes: Seq<u8>)
    requires
        forall|i: int| 0 <= i < bytes.len() ==> !is_json_ws(#[trigger] bytes[i]),
    ensures
        normalized(bytes) == bytes,
    decreases bytes.len(),
{
    if bytes.len() > 0 {
        lemma_normalized_identity(bytes.drop_last());
        assert(normalized(bytes) =~= bytes);
    }
}

/// Round trip: the rendering of a command holds no whitespace, so
/// normalizing leaves it intact; it spells exactly the command it came
/// from, and no two commands share a rendering.
pub proof fn lemma_command_json_round_trip(cmd: Command)
    ensures
        normalized(command_json(cmd)) == command_json(cmd),
        is_command_object(command_json(cmd), cmd),
        forall|other: Command| command_json(other) == command_json(cmd) ==> other == cmd,
{
    reveal_strlit("{");
    reveal_strlit(",");
    reveal_strlit("}");
    reveal_strlit("\"type\":\"Actuate\"");
    reveal_strlit("\"driver_id\":");
    reveal_strlit("\"value\":");
    reveal_strlit("{\"type\":\"Ignition\"}");
    reveal_strlit("{\"type\":\"EmergencyStop\"}");
    reveal_strlit("true");
    reveal_strlit("false");
    let rendering = command_json(cmd);
    assert forall|i: int| 0 <= i < rendering.len() implies !is_json_ws(
        #[trigger] rendering[i],
    ) by {
        match cmd {
            Command::Actuate { driver_id, value } => {
                let prefix = actuate_prefix_perm(0, value);
                let digits = dec_bytes(driver_id as nat);
                let suffix = actuate_suffix_perm(0, value);
                crate::text::lemma_dec_bytes_are_digits(driver_id as nat);
                if i < prefix.len() {
                    assert(rendering[i] == prefix[i]);
                } else if i < prefix.len() + digits.len() {
                    assert(rendering[i] == digits[i - prefix.len()]);
                } else {
                    assert(rendering[i] == suffix[i - prefix.len() - digits.len()]);
                }
            }
            Command::Ignition => {}
            Command::EmergencyStop => {}
        }
    }
    lemma_normalized_identity(rendering);
    match cmd {
        Command::Actuate { driver_id, value } => {
            assert(0 <= 0 < 6 && command_json(cmd) == actuate_json_perm(driver_id, value, 0));
            assert(is_command_object(command_json(cmd), cmd));
        }
        _ => {}
    }
    assert forall|other: Command| command_json(other) == command_json(cmd) implies other
        == cmd by {
        match (other, cmd) {
            (
                Command::Actuate { driver_id: id_a, value: value_a },
                Command::Actuate { driver_id: id_b, value: value_b },
            ) => {
                lemma_actuate_perm_layout(id_a, value_a, 0);
                lemma_actuate_perm_layout(id_b, value_b, 0);
                lemma_digits_value_dec(id_a as nat);
                lemma_digits_value_dec(id_b as nat);
                let prefix_a = actuate_prefix_perm(0, value_a);
                let prefix_b = actuate_prefix_perm(0, value_b);
                assert(prefix_a =~= prefix_b);
                let digits_a = dec_bytes(id_a as nat);
                let digits_b = dec_bytes(id_b as nat);
                // the digit runs sit at the same offset and end at the
                // first non-digit, so they are the same run
                if digits_a.len() < digits_b.len() {
                    assert(!(0x30 <= command_json(other)[prefix_a.len() + digits_a.len() as int]
                        <= 0x39));
                    assert(0x30 <= digits_b[digits_a.len() as int] <= 0x39);
                    assert(false);
                }
                if digits_b.len() < digits_a.len() {
                    assert(!(0x30 <= command_json(cmd)[prefix_b.len() + digits_b.len() as int]
                        <= 0x39));
                    assert(0x30 <= digits_a[digits_b.len() as int] <= 0x39);
                    assert(false);
                }
                assert(digits_a =~= command_json(other).subrange(
                    prefix_a.len() as int,
                    prefix_a.len() + digits_a.len() as int,
                ));
                assert(digits_b =~= command_json(cmd).subrange(
                    prefix_b.len() as int,
                    prefix_b.len() + digits_b.len() as int,
                ));
                assert(id_a == id_b);
                if value_a != value_b {
                    assert(command_json(other).len() != command_json(cmd).len());
                }
            }
            (Command::Actuate { driver_id, value }, _) => {
                lemma_actuate_perm_layout(driver_id, value, 0);
                assert(command_json(other)[9] != command_json(cmd)[9]);
            }
            (_, Command::Actuate { driver_id, value }) => {
                lemma_actuate_perm_layout(driver_id, value, 0);
                assert(command_json(other)[9] != command_json(cmd)[9]);
            }
            (Command::Ignition, Command::EmergencyStop) => {
                assert(command_json(other)[9] != command_json(cmd)[9]);
            }
            (Command::EmergencyStop, Command::Ignition) => {
                assert(command_json(other)[9] != command_json(cmd)[9]);
            }
            _ => {}
        }
    }
}

/// The short human-readable rendering of a command, as the command log rows
/// carry it.
pub open spec fn command_text(cmd: Command) -> Seq<u8> {
    match cmd {
        Command::Actuate { driver_id, value } => ascii_bytes("actuate "@) + dec_bytes(
            driver_id as nat,
        ) + ascii_bytes(" "@) + bool_bytes(value),
        Command::Ignition => ascii_bytes("ignition"@),
        Command::EmergencyStop => ascii_bytes("estop"@),
    }
}

/// Append the short human-readable rendering of `cmd` to `buf`.
pub fn push_command_text(buf: &mut Vec<u8>, cmd: &Command)
    ensures
        final(buf)@ == old(buf)@ + command_text(*cmd),
{
    match cmd {
        Command::Actuate { driver_id, value } => {
            proof {
                reveal_strlit("actuate ");
                reveal_strlit(" ");
            }
            push_ascii(buf, "actuate ");
            push_dec_u64(buf, *driver_id as u64);
            push_ascii(buf, " ");
            push_bool(buf, *value);
        }
        Command::Ignition => {
            proof {
                reveal_strlit("ignition");
            }
            push_ascii(buf, "ignition");
        }
        Command::EmergencyStop => {
            proof {
                reveal_strlit("estop");
            }
            push_ascii(buf, "estop");
        }
    }
}

} // verus!
