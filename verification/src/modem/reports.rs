//! The modem answers that the gateway reads, each a sequence of cursor steps
//! from `response`, starting at the first byte of the buffer.
use vstd::prelude::*;
use vstd::utf8::encode_utf8;
use vstd::utf8::valid_utf8;
use crate::modem::command::{decimal_text, lemma_decimal_text_bytes};
use crate::modem::response::{
    lemma_after_tag_matches, lemma_int_field_reads_decimal, lemma_skip_one_space, lemma_skip_spaces_stops,
    lemma_string_field_reads_quoted, quote_free, after_separator, int_run_end,
    after_tag, expect_tag, int_field, raw_string_field, read_int_field, read_raw_string,
    read_required_int_field, read_string_field, required_int_field, string_field,
};

verus! {

/// `+CSQ`
pub open spec fn signal_tag() -> Seq<u8> { seq![43, 67, 83, 81] }
/// `OK`
pub open spec fn ok_tag() -> Seq<u8> { seq![79, 75] }
/// `Ok` (the spelling that the PIN answer is checked against)
pub open spec fn pin_ok_tag() -> Seq<u8> { seq![79, 107] }
/// `+QINISTAT`
pub open spec fn sim_state_tag() -> Seq<u8> { seq![43, 81, 73, 78, 73, 83, 84, 65, 84] }
/// `+CMGR`
pub open spec fn read_message_tag() -> Seq<u8> { seq![43, 67, 77, 71, 82] }
/// `+CMTI`
pub open spec fn new_message_tag() -> Seq<u8> { seq![43, 67, 77, 84, 73] }
/// `+CMGS`
pub open spec fn sent_message_tag() -> Seq<u8> { seq![43, 67, 77, 71, 83] }
/// `\r\nAPP RDY\r\n`
pub open spec fn app_ready_tag() -> Seq<u8> { seq![13, 10, 65, 80, 80, 32, 82, 68, 89, 13, 10] }
/// `\r\n+CMTI: `
pub open spec fn new_message_notice_tag() -> Seq<u8> { seq![13, 10, 43, 67, 77, 84, 73, 58, 32] }
/// `\r\n`
pub open spec fn line_end_tag() -> Seq<u8> { seq![13, 10] }

fn signal_tag_bytes() -> (t: Vec<u8>) ensures t@ == signal_tag() { vec![43, 67, 83, 81] }
fn ok_tag_bytes() -> (t: Vec<u8>) ensures t@ == ok_tag() { vec![79, 75] }
fn pin_ok_tag_bytes() -> (t: Vec<u8>) ensures t@ == pin_ok_tag() { vec![79, 107] }
fn sim_state_tag_bytes() -> (t: Vec<u8>) ensures t@ == sim_state_tag() { vec![43, 81, 73, 78, 73, 83, 84, 65, 84] }
fn read_message_tag_bytes() -> (t: Vec<u8>) ensures t@ == read_message_tag() { vec![43, 67, 77, 71, 82] }
fn new_message_tag_bytes() -> (t: Vec<u8>) ensures t@ == new_message_tag() { vec![43, 67, 77, 84, 73] }
fn sent_message_tag_bytes() -> (t: Vec<u8>) ensures t@ == sent_message_tag() { vec![43, 67, 77, 71, 83] }
fn app_ready_tag_bytes() -> (t: Vec<u8>) ensures t@ == app_ready_tag() { vec![13, 10, 65, 80, 80, 32, 82, 68, 89, 13, 10] }
fn new_message_notice_tag_bytes() -> (t: Vec<u8>) ensures t@ == new_message_notice_tag() { vec![13, 10, 43, 67, 77, 84, 73, 58, 32] }
fn line_end_tag_bytes() -> (t: Vec<u8>) ensures t@ == line_end_tag() { vec![13, 10] }

// ---------------------------------------------------------------------------
// Grammars
// ---------------------------------------------------------------------------

/// `+CSQ <int> <int> OK`: the two numbers of a signal quality report.
pub open spec fn signal_report(buf: Seq<u8>) -> Option<(i32, i32)> {
    match after_tag(buf, 0, signal_tag()) {
        None => None,
        Some(i) => match required_int_field(buf, i) {
            None => None,
            Some((j, rssi)) => match required_int_field(buf, j) {
                None => None,
                Some((k, ber)) => match after_tag(buf, k, ok_tag()) {
                    None => None,
                    Some(_) => Some((rssi, ber)),
                },
            },
        },
    }
}

/// `Ok`: the answer that accepts a PIN.
pub open spec fn pin_accepted(buf: Seq<u8>) -> bool {
    after_tag(buf, 0, pin_ok_tag()) is Some
}

/// `+QINISTAT <int> OK`: the SIM initialisation state.
pub open spec fn sim_state_report(buf: Seq<u8>) -> Option<i32> {
    match after_tag(buf, 0, sim_state_tag()) {
        None => None,
        Some(i) => match required_int_field(buf, i) {
            None => None,
            Some((j, state)) => match after_tag(buf, j, ok_tag()) {
                None => None,
                Some(_) => Some(state),
            },
        },
    }
}

/// `+CMGR <string> <string> [<int>] <string>`: the header line of a stored
/// message: its status, the sender's number, an optional number and the time
/// stamp.
pub open spec fn message_header(buf: Seq<u8>) -> Option<(Seq<u8>, Seq<u8>, Option<i32>, Seq<u8>)> {
    match after_tag(buf, 0, read_message_tag()) {
        None => None,
        Some(i) => match string_field(buf, i) {
            None => None,
            Some((j, status)) => match string_field(buf, j) {
                None => None,
                Some((k, sender)) => match int_field(buf, k) {
                    None => None,
                    Some((l, alpha)) => match string_field(buf, l) {
                        None => None,
                        Some((_, stamp)) => Some((status, sender, alpha, stamp)),
                    },
                },
            },
        },
    }
}

/// `+CMTI <unquoted string> <int>`: a new message arrived in a storage slot.
pub open spec fn new_message_report(buf: Seq<u8>) -> Option<(Seq<u8>, i32)> {
    match after_tag(buf, 0, new_message_tag()) {
        None => None,
        Some(i) => match raw_string_field(buf, i) {
            None => None,
            Some((j, storage)) => match required_int_field(buf, j) {
                None => None,
                Some((_, slot)) => Some((storage, slot)),
            },
        },
    }
}

/// `+CMGS OK`: a message was sent.
pub open spec fn message_sent(buf: Seq<u8>) -> bool {
    match after_tag(buf, 0, sent_message_tag()) {
        None => false,
        Some(i) => after_tag(buf, i, ok_tag()) is Some,
    }
}

/// `\r\nAPP RDY\r\n`: the modem finished booting.
pub open spec fn app_ready(buf: Seq<u8>) -> bool {
    after_tag(buf, 0, app_ready_tag()) is Some
}

/// `\r\n+CMTI: <string> <int> \r\n`: the unsolicited notice of a new message.
pub open spec fn new_message_notice(buf: Seq<u8>) -> Option<(Seq<u8>, i32)> {
    match after_tag(buf, 0, new_message_notice_tag()) {
        None => None,
        Some(i) => match string_field(buf, i) {
            None => None,
            Some((j, storage)) => match required_int_field(buf, j) {
                None => None,
                Some((k, slot)) => match after_tag(buf, k, line_end_tag()) {
                    None => None,
                    Some(_) => Some((storage, slot)),
                },
            },
        },
    }
}

// ---------------------------------------------------------------------------
// What the grammars read
// ---------------------------------------------------------------------------

/// The report `+CSQ <rssi>,<ber> OK` reads back the two numbers it carries,
/// whatever they are.
pub proof fn lemma_signal_report_reads_numbers(rssi: i32, ber: i32)
    ensures
        signal_report(
            seq![43u8, 67, 83, 81, 32] + decimal_text(rssi as int) + seq![44u8] + decimal_text(ber as int)
                + seq![32u8, 79, 75],
        ) == Some((rssi, ber)),
{
    let d1 = decimal_text(rssi as int);
    let d2 = decimal_text(ber as int);
    let buf = seq![43u8, 67, 83, 81, 32] + d1 + seq![44u8] + d2 + seq![32u8, 79, 75];
    lemma_decimal_text_bytes(rssi);
    lemma_decimal_text_bytes(ber);
    let a: int = 5 + d1.len() as int;
    let b: int = a + 1 + d2.len() as int;
    assert(buf.subrange(0, 4) =~= signal_tag());
    lemma_after_tag_matches(buf, 0, signal_tag());
    assert(buf[5] == d1[0]);
    lemma_skip_one_space(buf, 4);
    assert(buf.subrange(5, a) =~= d1);
    assert(buf[a] == 44);
    lemma_int_field_reads_decimal(buf, 5, rssi);
    assert(after_separator(buf, a) == a + 1);
    assert(buf[a + 1] == d2[0]);
    lemma_skip_spaces_stops(buf, a + 1);
    assert(buf.subrange(a + 1, b) =~= d2);
    assert(buf[b] == 32);
    lemma_int_field_reads_decimal(buf, a + 1, ber);
    assert(after_separator(buf, b) == b);
    assert(buf[b + 1] == 79);
    lemma_skip_one_space(buf, b);
    assert(buf.subrange(b + 1, b + 3) =~= ok_tag());
    lemma_after_tag_matches(buf, b + 1, ok_tag());
}

/// The report `+QINISTAT <state> OK` reads back the state it carries,
/// whatever it is.
pub proof fn lemma_sim_state_report_reads_state(state: i32)
    ensures
        sim_state_report(
            seq![43u8, 81, 73, 78, 73, 83, 84, 65, 84, 32] + decimal_text(state as int) + seq![32u8, 79, 75],
        ) == Some(state),
{
    let d = decimal_text(state as int);
    let buf = seq![43u8, 81, 73, 78, 73, 83, 84, 65, 84, 32] + d + seq![32u8, 79, 75];
    lemma_decimal_text_bytes(state);
    let a: int = 10 + d.len() as int;
    assert(buf.subrange(0, 9) =~= sim_state_tag());
    lemma_after_tag_matches(buf, 0, sim_state_tag());
    assert(buf[10] == d[0]);
    lemma_skip_one_space(buf, 9);
    assert(buf.subrange(10, a) =~= d);
    assert(buf[a] == 32);
    lemma_int_field_reads_decimal(buf, 10, state);
    assert(after_separator(buf, a) == a);
    assert(buf[a + 1] == 79);
    lemma_skip_one_space(buf, a);
    assert(buf.subrange(a + 1, a + 3) =~= ok_tag());
    lemma_after_tag_matches(buf, a + 1, ok_tag());
}

/// The notice `\r\n+CMTI: "<storage>",<slot>\r\n` is no boot notice and
/// announces the slot it carries in the storage it names, whatever they are.
pub proof fn lemma_new_message_notice_reads_slot(storage: Seq<u8>, slot: i32)
    requires
        quote_free(storage),
        valid_utf8(storage),
    ensures
        ({
            let buf = seq![13u8, 10, 43, 67, 77, 84, 73, 58, 32, 34] + storage + seq![34u8, 44]
                + decimal_text(slot as int) + seq![13u8, 10];
            &&& !app_ready(buf)
            &&& new_message_notice(buf) == Some((storage, slot))
        }),
{
    let d = decimal_text(slot as int);
    let buf = seq![13u8, 10, 43, 67, 77, 84, 73, 58, 32, 34] + storage + seq![34u8, 44] + d + seq![13u8, 10];
    lemma_decimal_text_bytes(slot);
    let c: int = 10 + storage.len() as int;
    let e: int = c + 2 + d.len() as int;
    if buf.len() >= 11 {
        assert(buf.subrange(0, 11)[2] != app_ready_tag()[2]);
    }
    assert(buf.subrange(0, 9) =~= new_message_notice_tag());
    lemma_after_tag_matches(buf, 0, new_message_notice_tag());
    lemma_skip_spaces_stops(buf, 9);
    assert(buf.subrange(10, c) =~= storage);
    assert(buf[c] == 34);
    lemma_string_field_reads_quoted(buf, 9, storage);
    assert(buf[c + 1] == 44);
    assert(after_separator(buf, c + 1) == c + 2);
    assert(buf[c + 2] == d[0]);
    lemma_skip_spaces_stops(buf, c + 2);
    assert(buf.subrange(c + 2, e) =~= d);
    assert(buf[e] == 13);
    lemma_int_field_reads_decimal(buf, c + 2, slot);
    assert(after_separator(buf, e) == e);
    lemma_skip_spaces_stops(buf, e);
    assert(buf.subrange(e, e + 2) =~= line_end_tag());
    lemma_after_tag_matches(buf, e, line_end_tag());
}

/// The header line `+CMGR"<status>","<sender>",,"<stamp>"` is read as its
/// status, its sender, no number and its time stamp, whatever texts without
/// quotes they are.
pub proof fn lemma_message_header_reads_fields(status: Seq<u8>, sender: Seq<u8>, stamp: Seq<u8>)
    requires
        quote_free(status),
        quote_free(sender),
        quote_free(stamp),
        valid_utf8(status),
        valid_utf8(sender),
        valid_utf8(stamp),
    ensures
        message_header(
            seq![43u8, 67, 77, 71, 82, 34] + status + seq![34u8, 44, 34] + sender + seq![34u8, 44, 44, 34] + stamp
                + seq![34u8],
        ) == Some((status, sender, None::<i32>, stamp)),
{
    let buf = seq![43u8, 67, 77, 71, 82, 34] + status + seq![34u8, 44, 34] + sender + seq![34u8, 44, 44, 34]
        + stamp + seq![34u8];
    let a: int = 6 + status.len() as int;
    let j: int = a + 2;
    let b: int = j + 1 + sender.len() as int;
    let k: int = b + 2;
    let l: int = k + 1;
    let z: int = l + 1 + stamp.len() as int;
    assert(buf.len() == z + 1);
    assert(buf.subrange(0, 5) =~= read_message_tag());
    lemma_after_tag_matches(buf, 0, read_message_tag());
    lemma_skip_spaces_stops(buf, 5);
    assert(buf.subrange(6, a) =~= status);
    assert(buf[a] == 34);
    lemma_string_field_reads_quoted(buf, 5, status);
    assert(buf[a + 1] == 44);
    assert(after_separator(buf, a + 1) == j);
    assert(buf[j] == 34);
    lemma_skip_spaces_stops(buf, j);
    assert(buf.subrange(j + 1, b) =~= sender);
    assert(buf[b] == 34);
    lemma_string_field_reads_quoted(buf, j, sender);
    assert(buf[b + 1] == 44);
    assert(after_separator(buf, b + 1) == k);
    assert(buf[k] == 44);
    lemma_skip_spaces_stops(buf, k);
    assert(int_run_end(buf, k) == k);
    assert(after_separator(buf, k) == l);
    assert(buf[l] == 34);
    lemma_skip_spaces_stops(buf, l);
    assert(int_field(buf, k) == Some((l, None::<i32>)));
    assert(buf.subrange(l + 1, z) =~= stamp);
    assert(buf[z] == 34);
    lemma_string_field_reads_quoted(buf, l, stamp);
}

// ---------------------------------------------------------------------------
// Readers
// ---------------------------------------------------------------------------

/// Reads a signal quality report.
pub fn parse_signal_report(buf: &[u8]) -> (report: Option<(i32, i32)>)
    ensures
        report == signal_report(buf@),
{
    let tag = signal_tag_bytes();
    let i = match expect_tag(buf, 0, tag.as_slice()) {
        Some(i) => i,
        None => return None,
    };
    let (j, rssi) = match read_required_int_field(buf, i) {
        Some(f) => f,
        None => return None,
    };
    let (k, ber) = match read_required_int_field(buf, j) {
        Some(f) => f,
        None => return None,
    };
    let ok = ok_tag_bytes();
    match expect_tag(buf, k, ok.as_slice()) {
        Some(_) => Some((rssi, ber)),
        None => None,
    }
}

/// Checks the answer to a PIN entry.
pub fn parse_pin_accepted(buf: &[u8]) -> (accepted: bool)
    ensures
        accepted == pin_accepted(buf@),
{
    let tag = pin_ok_tag_bytes();
    expect_tag(buf, 0, tag.as_slice()).is_some()
}

/// Reads the SIM initialisation state.
pub fn parse_sim_state_report(buf: &[u8]) -> (state: Option<i32>)
    ensures
        state == sim_state_report(buf@),
{
    let tag = sim_state_tag_bytes();
    let i = match expect_tag(buf, 0, tag.as_slice()) {
        Some(i) => i,
        None => return None,
    };
    let (j, state) = match read_required_int_field(buf, i) {
        Some(f) => f,
        None => return None,
    };
    let ok = ok_tag_bytes();
    match expect_tag(buf, j, ok.as_slice()) {
        Some(_) => Some(state),
        None => None,
    }
}

/// The header line of a stored message, read as text: status, sender,
/// optional number, time stamp.
pub fn parse_message_header(buf: &[u8]) -> (header: Option<(String, String, Option<i32>, String)>)
    ensures
        header is Some <==> message_header(buf@) is Some,
        header matches Some(h) ==> {
            &&& message_header(buf@) matches Some(g)
            &&& encode_utf8(h.0@) == g.0
            &&& encode_utf8(h.1@) == g.1
            &&& h.2 == g.2
            &&& encode_utf8(h.3@) == g.3
        },
{
    let tag = read_message_tag_bytes();
    let i = match expect_tag(buf, 0, tag.as_slice()) {
        Some(i) => i,
        None => return None,
    };
    let (j, status) = match read_string_field(buf, i) {
        Some(f) => f,
        None => return None,
    };
    let (k, sender) = match read_string_field(buf, j) {
        Some(f) => f,
        None => return None,
    };
    let (l, alpha) = match read_int_field(buf, k) {
        Some(f) => f,
        None => return None,
    };
    match read_string_field(buf, l) {
        Some((_, stamp)) => Some((status, sender, alpha, stamp)),
        None => None,
    }
}

/// Reads a new-message report: the storage name and the slot.
pub fn parse_new_message_report(buf: &[u8]) -> (report: Option<(String, i32)>)
    ensures
        report is Some <==> new_message_report(buf@) is Some,
        report matches Some(r) ==> {
            &&& new_message_report(buf@) matches Some(g)
            &&& encode_utf8(r.0@) == g.0
            &&& r.1 == g.1
        },
{
    let tag = new_message_tag_bytes();
    let i = match expect_tag(buf, 0, tag.as_slice()) {
        Some(i) => i,
        None => return None,
    };
    let (j, storage) = match read_raw_string(buf, i) {
        Some(f) => f,
        None => return None,
    };
    match read_required_int_field(buf, j) {
        Some((_, slot)) => Some((storage, slot)),
        None => None,
    }
}

/// Checks the answer to a message submission.
pub fn parse_message_sent(buf: &[u8]) -> (sent: bool)
    ensures
        sent == message_sent(buf@),
{
    let tag = sent_message_tag_bytes();
    let i = match expect_tag(buf, 0, tag.as_slice()) {
        Some(i) => i,
        None => return false,
    };
    let ok = ok_tag_bytes();
    expect_tag(buf, i, ok.as_slice()).is_some()
}

/// Checks for the boot notice.
pub fn parse_app_ready(buf: &[u8]) -> (ready: bool)
    ensures
        ready == app_ready(buf@),
{
    let tag = app_ready_tag_bytes();
    expect_tag(buf, 0, tag.as_slice()).is_some()
}

/// Reads the unsolicited new-message notice: the storage name and the slot.
pub fn parse_new_message_notice(buf: &[u8]) -> (notice: Option<(String, i32)>)
    ensures
        notice is Some <==> new_message_notice(buf@) is Some,
        notice matches Some(r) ==> {
            &&& new_message_notice(buf@) matches Some(g)
            &&& encode_utf8(r.0@) == g.0
            &&& r.1 == g.1
        },
{
    let tag = new_message_notice_tag_bytes();
    let i = match expect_tag(buf, 0, tag.as_slice()) {
        Some(i) => i,
        None => return None,
    };
    let (j, storage) = match read_string_field(buf, i) {
        Some(f) => f,
        None => return None,
    };
    let (k, slot) = match read_required_int_field(buf, j) {
        Some(f) => f,
        None => return None,
    };
    let end = line_end_tag_bytes();
    match expect_tag(buf, k, end.as_slice()) {
        Some(_) => Some((storage, slot)),
        None => None,
    }
}

} // verus!
