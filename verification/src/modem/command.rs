//! The AT commands that the gateway sends, built by the `at_commands` crate.
use vstd::prelude::*;
use at_commands::builder::CommandBuilder;
use vstd::utf8::encode_utf8;

verus! {

/// Room for an ordinary command, in bytes.
pub const COMMAND_CAPACITY: usize = 256;

/// Room for a command that carries message text, in bytes.
pub const LONG_COMMAND_CAPACITY: usize = 4096;

/// `AT`
pub open spec fn at_prefix() -> Seq<u8> { seq![65, 84] }
/// The name suffix of a query command: `?`
pub open spec fn query_suffix() -> Seq<u8> { seq![63] }
/// The name suffix of a set command: `=`
pub open spec fn set_suffix() -> Seq<u8> { seq![61] }
/// The usual command terminator: `\r\n`
pub open spec fn crlf() -> Seq<u8> { seq![13, 10] }
/// The terminator of message text: Ctrl-Z
pub open spec fn ctrl_z() -> Seq<u8> { seq![26] }
/// The parameter separator: `,`
pub open spec fn comma() -> Seq<u8> { seq![44] }
/// `"`
pub open spec fn quote() -> Seq<u8> { seq![34] }

/// The decimal digits of `n`, most significant first.
pub open spec fn natural_text(n: nat) -> Seq<u8>
    decreases n,
{
    if n < 10 {
        seq![(48 + n) as u8]
    } else {
        natural_text(n / 10).push((48 + n % 10) as u8)
    }
}

/// An integer in decimal, with a leading `-` when negative.
pub open spec fn decimal_text(v: int) -> Seq<u8> {
    if v < 0 {
        seq![45u8] + natural_text((-v) as nat)
    } else {
        natural_text(v as nat)
    }
}

/// An integer parameter with its separator.
pub open spec fn int_parameter(v: int) -> Seq<u8> {
    decimal_text(v) + comma()
}

/// A quoted string parameter with its separator.
pub open spec fn string_parameter(s: Seq<u8>) -> Seq<u8> {
    quote() + s + quote() + comma()
}

/// An unformatted parameter with its separator.
pub open spec fn raw_parameter(s: Seq<u8>) -> Seq<u8> {
    s + comma()
}

/// The bytes of a command: `AT`, the name and its suffix, the parameters
/// (each followed by a comma), one trailing comma dropped, the terminator.
pub open spec fn command_text(name: Seq<u8>, suffix: Seq<u8>, params: Seq<u8>, terminator: Seq<u8>) -> Seq<u8> {
    let body = at_prefix() + name + suffix + params;
    let trimmed = if body.len() > 0 && body.last() == 44 { body.drop_last() } else { body };
    trimmed + terminator
}

/// Builds the query command `AT<name>?\r\n` (`CommandBuilder::create_query`,
/// `named`, `finish`) in a buffer of `capacity` bytes.
///
/// Trusted: the crate's source appends the prefix, the name and `?`, then the
/// terminator `\r\n`, and fails exactly when the result does not fit.
#[verifier::external_body]
fn build_query(name: &[u8], capacity: usize) -> (built: Result<Vec<u8>, usize>)
    ensures
        built is Ok <==> command_text(name@, query_suffix(), Seq::empty(), crlf()).len() <= capacity,
        built matches Ok(c) ==> c@ == command_text(name@, query_suffix(), Seq::empty(), crlf()),
{
    let mut buffer = vec![0u8; capacity];
    match CommandBuilder::create_query(&mut buffer, true).named(name).finish() {
        Ok(command) => Ok(command.to_vec()),
        Err(needed) => Err(needed),
    }
}

/// Builds the set command `AT<name>=<value>\r\n` with one integer parameter
/// (`create_set`, `named`, `with_int_parameter`, `finish`).
///
/// Trusted: the crate's source writes the integer in decimal with a leading
/// minus for negative values, drops the trailing separator and appends
/// `\r\n`, failing exactly when the result does not fit.
#[verifier::external_body]
fn build_set_int(name: &[u8], value: i32, capacity: usize) -> (built: Result<Vec<u8>, usize>)
    ensures
        built is Ok <==> command_text(name@, set_suffix(), int_parameter(value as int), crlf()).len() <= capacity,
        built matches Ok(c) ==> c@ == command_text(name@, set_suffix(), int_parameter(value as int), crlf()),
{
    let mut buffer = vec![0u8; capacity];
    match CommandBuilder::create_set(&mut buffer, true).named(name).with_int_parameter(value).finish() {
        Ok(command) => Ok(command.to_vec()),
        Err(needed) => Err(needed),
    }
}

/// Builds the set command `AT<name>=<raw>\r\n` with one unformatted parameter
/// (`create_set`, `named`, `with_raw_parameter`, `finish`).
///
/// Trusted: the crate's source copies the parameter unchanged, drops one
/// trailing separator and appends `\r\n`, failing exactly when the result does
/// not fit.
#[verifier::external_body]
fn build_set_raw(name: &[u8], raw: &[u8], capacity: usize) -> (built: Result<Vec<u8>, usize>)
    ensures
        built is Ok <==> command_text(name@, set_suffix(), raw_parameter(raw@), crlf()).len() <= capacity,
        built matches Ok(c) ==> c@ == command_text(name@, set_suffix(), raw_parameter(raw@), crlf()),
{
    let mut buffer = vec![0u8; capacity];
    match CommandBuilder::create_set(&mut buffer, true).named(name).with_raw_parameter(raw).finish() {
        Ok(command) => Ok(command.to_vec()),
        Err(needed) => Err(needed),
    }
}

/// Builds the set command `AT<name>="<text>",<raw><terminator>` (`create_set`,
/// `named`, `with_string_parameter`, `with_raw_parameter`, `finish_with`).
///
/// Trusted: the crate's source quotes the string parameter, copies the raw one,
/// drops one trailing separator and appends the terminator, failing exactly
/// when the result does not fit (the terminator here is never empty).
#[verifier::external_body]
fn build_set_string_raw(name: &[u8], text: &[u8], raw: &[u8], terminator: &[u8], capacity: usize) -> (built: Result<Vec<u8>, usize>)
    requires
        terminator@.len() > 0,
    ensures
        built is Ok <==> command_text(name@, set_suffix(), string_parameter(text@) + raw_parameter(raw@), terminator@).len() <= capacity,
        built matches Ok(c) ==> c@ == command_text(name@, set_suffix(), string_parameter(text@) + raw_parameter(raw@), terminator@),
{
    let mut buffer = vec![0u8; capacity];
    match CommandBuilder::create_set(&mut buffer, true)
        .named(name)
        .with_string_parameter(text)
        .with_raw_parameter(raw)
        .finish_with(terminator) {
        Ok(command) => Ok(command.to_vec()),
        Err(needed) => Err(needed),
    }
}

} // verus!

verus! {

/// `+CSQ`
pub open spec fn signal_name() -> Seq<u8> { seq![43, 67, 83, 81] }
/// `+CPIN`
pub open spec fn pin_name() -> Seq<u8> { seq![43, 67, 80, 73, 78] }
/// `+QINISTAT`
pub open spec fn sim_state_name() -> Seq<u8> { seq![43, 81, 73, 78, 73, 83, 84, 65, 84] }
/// `+CMGR`
pub open spec fn read_message_name() -> Seq<u8> { seq![43, 67, 77, 71, 82] }
/// `+CMGS`
pub open spec fn send_message_name() -> Seq<u8> { seq![43, 67, 77, 71, 83] }
/// `+CMGD`
pub open spec fn delete_message_name() -> Seq<u8> { seq![43, 67, 77, 71, 68] }
/// `+CMGF`
pub open spec fn message_format_name() -> Seq<u8> { seq![43, 67, 77, 71, 70] }
/// `ATI\r\n`
pub open spec fn power_check_text() -> Seq<u8> { seq![65, 84, 73, 13, 10] }

proof fn lemma_natural_text_len(n: nat, k: nat)
    requires
        k >= 1,
        n < crate::modem::response::pow10(k),
    ensures
        natural_text(n).len() <= k,
    decreases k,
{
    if n >= 10 {
        assert(k >= 2) by {
            if k == 1 {
                assert(crate::modem::response::pow10(1) == 10) by {
                    reveal_with_fuel(crate::modem::response::pow10, 2);
                }
            }
        }
        let k1 = (k - 1) as nat;
        assert(crate::modem::response::pow10(k) == 10 * crate::modem::response::pow10(k1));
        assert(n / 10 < crate::modem::response::pow10(k1)) by (nonlinear_arith)
            requires n < 10 * crate::modem::response::pow10(k1);
        lemma_natural_text_len(n / 10, k1);
    }
}

/// An `i32` takes at most eleven bytes in decimal.
proof fn lemma_decimal_text_len(v: i32)
    ensures
        decimal_text(v as int).len() <= 11,
{
    assert(crate::modem::response::pow10(10) == 10000000000) by {
        reveal_with_fuel(crate::modem::response::pow10, 11);
    }
    if v < 0 {
        lemma_natural_text_len((-(v as int)) as nat, 10);
    } else {
        lemma_natural_text_len(v as nat, 10);
    }
}

fn name_bytes_signal() -> (t: Vec<u8>) ensures t@ == signal_name() { vec![43, 67, 83, 81] }
fn name_bytes_pin() -> (t: Vec<u8>) ensures t@ == pin_name() { vec![43, 67, 80, 73, 78] }
fn name_bytes_sim_state() -> (t: Vec<u8>) ensures t@ == sim_state_name() { vec![43, 81, 73, 78, 73, 83, 84, 65, 84] }
fn name_bytes_read_message() -> (t: Vec<u8>) ensures t@ == read_message_name() { vec![43, 67, 77, 71, 82] }
fn name_bytes_send_message() -> (t: Vec<u8>) ensures t@ == send_message_name() { vec![43, 67, 77, 71, 83] }
fn name_bytes_delete_message() -> (t: Vec<u8>) ensures t@ == delete_message_name() { vec![43, 67, 77, 71, 68] }
fn name_bytes_message_format() -> (t: Vec<u8>) ensures t@ == message_format_name() { vec![43, 67, 77, 71, 70] }

/// A set command with one integer parameter, which always fits a command buffer.
fn short_set_int(name: &[u8], value: i32) -> (command: Vec<u8>)
    requires
        name@.len() <= 16,
    ensures
        command@ == command_text(name@, set_suffix(), int_parameter(value as int), crlf()),
{
    proof {
        lemma_decimal_text_len(value);
    }
    match build_set_int(name, value, COMMAND_CAPACITY) {
        Ok(command) => command,
        Err(_) => {
            assert(false);
            Vec::new()
        },
    }
}

/// A query command, which always fits a command buffer.
fn short_query(name: &[u8]) -> (command: Vec<u8>)
    requires
        name@.len() <= 16,
    ensures
        command@ == command_text(name@, query_suffix(), Seq::empty(), crlf()),
{
    match build_query(name, COMMAND_CAPACITY) {
        Ok(command) => command,
        Err(_) => {
            assert(false);
            Vec::new()
        },
    }
}

/// `AT+CSQ?\r\n`: asks for the signal quality.
pub fn signal_query() -> (command: Vec<u8>)
    ensures
        command@ == command_text(signal_name(), query_suffix(), Seq::empty(), crlf()),
{
    let name = name_bytes_signal();
    short_query(name.as_slice())
}

/// `AT+QINISTAT?\r\n`: asks for the SIM initialisation state.
pub fn sim_state_query() -> (command: Vec<u8>)
    ensures
        command@ == command_text(sim_state_name(), query_suffix(), Seq::empty(), crlf()),
{
    let name = name_bytes_sim_state();
    short_query(name.as_slice())
}

/// `AT+CPIN=<pin>\r\n`: enters the SIM PIN; `Err` with the needed size where
/// the command does not fit a command buffer.
pub fn pin_command(pin: &str) -> (command: Result<Vec<u8>, usize>)
    ensures
        command is Ok <==> command_text(pin_name(), set_suffix(), raw_parameter(encode_utf8(pin@)), crlf()).len() <= COMMAND_CAPACITY,
        command matches Ok(c) ==> c@ == command_text(pin_name(), set_suffix(), raw_parameter(encode_utf8(pin@)), crlf()),
{
    let name = name_bytes_pin();
    build_set_raw(name.as_slice(), pin.as_bytes(), COMMAND_CAPACITY)
}

/// `AT+CMGR=<slot>\r\n`: reads the message stored in `slot`.
pub fn read_message_command(slot: i32) -> (command: Vec<u8>)
    ensures
        command@ == command_text(read_message_name(), set_suffix(), int_parameter(slot as int), crlf()),
{
    let name = name_bytes_read_message();
    short_set_int(name.as_slice(), slot)
}

/// `AT+CMGD=<slot>\r\n`: deletes the message stored in `slot`.
pub fn delete_message_command(slot: i32) -> (command: Vec<u8>)
    ensures
        command@ == command_text(delete_message_name(), set_suffix(), int_parameter(slot as int), crlf()),
{
    let name = name_bytes_delete_message();
    short_set_int(name.as_slice(), slot)
}

/// `AT+CMGF=<mode>\r\n`: selects the message format.
pub fn message_format_command(mode: i32) -> (command: Vec<u8>)
    ensures
        command@ == command_text(message_format_name(), set_suffix(), int_parameter(mode as int), crlf()),
{
    let name = name_bytes_message_format();
    short_set_int(name.as_slice(), mode)
}

/// `AT+CMGS="<address>",<content>` closed by Ctrl-Z: sends a text message;
/// `Err` with the needed size where it does not fit a long command buffer.
pub fn send_message_command(address: &str, content: &str) -> (command: Result<Vec<u8>, usize>)
    ensures
        command is Ok <==> command_text(send_message_name(), set_suffix(),
            string_parameter(encode_utf8(address@)) + raw_parameter(encode_utf8(content@)), ctrl_z()).len()
            <= LONG_COMMAND_CAPACITY,
        command matches Ok(c) ==> c@ == command_text(send_message_name(), set_suffix(),
            string_parameter(encode_utf8(address@)) + raw_parameter(encode_utf8(content@)), ctrl_z()),
{
    let name = name_bytes_send_message();
    let terminator: Vec<u8> = vec![26];
    assert(terminator@ == ctrl_z());
    build_set_string_raw(name.as_slice(), address.as_bytes(), content.as_bytes(), terminator.as_slice(), LONG_COMMAND_CAPACITY)
}

/// `ATI\r\n`: the identification request that shows the modem is powered.
pub fn power_check_command() -> (command: Vec<u8>)
    ensures
        command@ == power_check_text(),
{
    vec![65, 84, 73, 13, 10]
}

} // verus!

verus! {

/// Every command starts with `AT` and ends with its terminator.
pub proof fn lemma_command_framing(name: Seq<u8>, suffix: Seq<u8>, params: Seq<u8>, terminator: Seq<u8>)
    ensures
        command_text(name, suffix, params, terminator).take(2) == at_prefix(),
        command_text(name, suffix, params, terminator).skip(
            command_text(name, suffix, params, terminator).len() - terminator.len(),
        ) == terminator,
{
    let body = at_prefix() + name + suffix + params;
    let trimmed = if body.len() > 0 && body.last() == 44 { body.drop_last() } else { body };
    if body.len() == 2 {
        assert(body =~= at_prefix());
    }
    assert(trimmed.len() >= 2);
    assert(trimmed.take(2) =~= at_prefix());
    let text = trimmed + terminator;
    assert(text.take(2) =~= trimmed.take(2));
    assert(text.skip(text.len() - terminator.len()) =~= terminator);
}

proof fn lemma_natural_text_digits(n: nat)
    ensures
        crate::modem::response::all_digits(natural_text(n)),
        crate::modem::response::digits_value(natural_text(n)) == n,
        natural_text(n).len() >= 1,
    decreases n,
{
    if n >= 10 {
        lemma_natural_text_digits(n / 10);
        let prefix = natural_text(n / 10);
        let s = natural_text(n);
        assert(s.drop_last() =~= prefix);
        assert forall|k: int| 0 <= k < s.len() implies crate::modem::response::is_digit(#[trigger] s[k]) by {
            if k < prefix.len() {
                assert(s[k] == prefix[k]);
            }
        }
        assert(s.last() == (48 + n % 10) as u8);
        assert((s.last() - 48) as nat == n % 10);
        assert(n == (n / 10) * 10 + n % 10);
        assert(crate::modem::response::digits_value(s)
            == crate::modem::response::digits_value(prefix) * 10 + (s.last() - 48) as nat);
    } else {
        let s = natural_text(n);
        assert(s.drop_last() =~= Seq::<u8>::empty());
        assert(crate::modem::response::digits_value(Seq::<u8>::empty()) == 0);
        assert(crate::modem::response::digits_value(s)
            == crate::modem::response::digits_value(s.drop_last()) * 10 + (s.last() - 48) as nat);
    }
}

/// An integer in decimal is one or more digits, after a minus when negative.
pub proof fn lemma_decimal_text_bytes(v: i32)
    ensures
        decimal_text(v as int).len() >= 1,
        decimal_text(v as int)[0] != crate::modem::response::PLUS,
        forall|k: int| 0 <= k < decimal_text(v as int).len()
            ==> crate::modem::response::is_int_byte(#[trigger] decimal_text(v as int)[k]),
{
    let s = decimal_text(v as int);
    if v < 0 {
        let n = (-(v as int)) as nat;
        lemma_natural_text_digits(n);
        assert forall|k: int| 0 <= k < s.len() implies crate::modem::response::is_int_byte(#[trigger] s[k]) by {
            if k > 0 {
                assert(s[k] == natural_text(n)[k - 1]);
                assert(crate::modem::response::is_digit(natural_text(n)[k - 1]));
            }
        }
    } else {
        lemma_natural_text_digits(v as nat);
        assert forall|k: int| 0 <= k < s.len() implies crate::modem::response::is_int_byte(#[trigger] s[k]) by {
            assert(crate::modem::response::is_digit(s[k]));
        }
        assert(crate::modem::response::is_digit(s[0]));
    }
}

/// An integer written as a command parameter reads back as the same integer
/// when it comes as a field of an answer.
pub proof fn lemma_decimal_round_trip(v: i32)
    ensures
        crate::modem::response::decimal_int(decimal_text(v as int)) == Some(v),
{
    lemma_decimal_text_len(v);
    if v < 0 {
        let n = (-(v as int)) as nat;
        lemma_natural_text_digits(n);
        let s = decimal_text(v as int);
        assert(s.drop_first() =~= natural_text(n));
    } else {
        lemma_natural_text_digits(v as nat);
        let s = natural_text(v as nat);
        assert(crate::modem::response::is_digit(s[0]));
    }
}

} // verus!
