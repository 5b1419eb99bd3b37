//! The gateway's side of the modem dialogue: the decisions taken on the
//! modem's answers and the settings of the polling loop.
pub mod command;
pub mod lines;
pub mod reports;
pub mod response;

use vstd::prelude::*;
use vstd::utf8::{encode_utf8, valid_utf8};
use crate::modem::reports::{
    app_ready, message_header, message_sent, new_message_notice, new_message_report, pin_accepted,
    signal_report, sim_state_report, parse_app_ready, parse_message_header, parse_message_sent,
    parse_new_message_notice, parse_new_message_report, parse_pin_accepted, parse_signal_report,
    parse_sim_state_report,
};
use crate::text::string_from_utf8;

verus! {

/// The SIM has not finished initialising.
#[derive(Clone, Copy, Debug, PartialEq, Eq, Structural)]
pub struct SimNotReady;

/// The modem's answer does not have the expected form.
#[derive(Clone, Copy, Debug, PartialEq, Eq, Structural)]
pub struct UnparsableATResponse;

/// The modem refused a configuration command.
#[derive(Clone, Copy, Debug, PartialEq, Eq, Structural)]
pub struct UnableToSetConfig;

/// Why an exchange with the modem failed.
#[derive(Clone, Copy, Debug, PartialEq, Eq, Structural)]
pub enum ModemError {
    SimNotReady(SimNotReady),
    UnparsableATResponse(UnparsableATResponse),
    /// The text of a stored message is not UTF-8.
    InvalidText,
}

/// A text message read from the modem.
#[derive(Clone, Debug)]
pub struct SMS {
    pub received_number: String,
    pub send_number: String,
    pub time: String,
    pub data: String,
    pub message_type: String,
}

/// Settings sent to the modem before messages are read.
#[derive(Clone, Debug)]
pub struct ModemConfig {
    pub sms_mode: i32,
    pub sms_charset: String,
}

/// What an unsolicited line from the modem announces.
#[allow(non_camel_case_types)]
#[derive(Clone, Copy, Debug, PartialEq, Eq, Structural)]
pub enum ModemStatus {
    /// A new message was stored in this slot.
    SMS(i32),
    SIM_STAT(u8),
    NONE,
}

/// How the gateway looks for new messages.
#[allow(non_camel_case_types)]
#[derive(Clone, Copy, Debug, PartialEq, Eq, Structural)]
pub enum Strategy {
    /// Read every storage slot in turn.
    PULL,
    /// Wait for the modem's new-message notices.
    WAIT,
}

/// The signal strength value that means "not known or not detectable".
pub const UNKNOWN_SIGNAL: i32 = 99;

/// The SIM state that means "initialisation finished".
pub const SIM_READY: i32 = 2;

/// The message format that the gateway selects (text mode).
pub const TEXT_MODE: i32 = 1;

/// The first and the last storage slot that the pulling strategy reads.
pub const FIRST_SLOT: i32 = 1;
pub const LAST_SLOT: i32 = 23;

/// The storage name of the SIM card: `SM`.
pub open spec fn sim_storage() -> Seq<u8> { seq![83, 77] }

pub open spec fn unparsable() -> ModemError {
    ModemError::UnparsableATResponse(UnparsableATResponse)
}

/// Whether the modem is registered: the answer to the signal query.
///
/// A signal strength of 99 means no network.
pub fn online_status(response: &[u8]) -> (online: Result<bool, ModemError>)
    ensures
        online == match signal_report(response@) {
            Some((rssi, _)) => Ok::<bool, ModemError>(rssi != UNKNOWN_SIGNAL),
            None => Err(unparsable()),
        },
{
    match parse_signal_report(response) {
        Some((rssi, _)) => Ok(rssi != UNKNOWN_SIGNAL),
        None => Err(ModemError::UnparsableATResponse(UnparsableATResponse)),
    }
}

/// Whether the modem accepted the PIN.
pub fn sim_pin_status(response: &[u8]) -> (accepted: Result<(), ModemError>)
    ensures
        accepted == if pin_accepted(response@) { Ok::<(), ModemError>(()) } else { Err(unparsable()) },
{
    if parse_pin_accepted(response) {
        Ok(())
    } else {
        Err(ModemError::UnparsableATResponse(UnparsableATResponse))
    }
}

/// Whether the SIM is ready: state 2 is ready, any other state is not.
pub fn sim_status(response: &[u8]) -> (ready: Result<(), ModemError>)
    ensures
        ready == match sim_state_report(response@) {
            Some(state) => if state == SIM_READY {
                Ok::<(), ModemError>(())
            } else {
                Err(ModemError::SimNotReady(SimNotReady))
            },
            None => Err(unparsable()),
        },
{
    match parse_sim_state_report(response) {
        Some(state) => {
            if state == SIM_READY {
                Ok(())
            } else {
                Err(ModemError::SimNotReady(SimNotReady))
            }
        },
        None => Err(ModemError::UnparsableATResponse(UnparsableATResponse)),
    }
}

/// The message in the lines of a read answer: line 1 is the header, line 2
/// the text. The sender's number fills both number fields; the header's
/// status becomes the message type.
pub fn sms_from_lines(lines: &Vec<Vec<u8>>) -> (sms: Result<SMS, ModemError>)
    requires
        lines@.len() >= 2,
        message_header(lines@[1]@) is Some ==> lines@.len() >= 3,
    ensures
        match message_header(lines@[1]@) {
            None => sms == Err::<SMS, ModemError>(unparsable()),
            Some((status, sender, _, stamp)) => if valid_utf8(lines@[2]@) {
                &&& sms matches Ok(m)
                &&& encode_utf8(m.received_number@) == sender
                &&& encode_utf8(m.send_number@) == sender
                &&& encode_utf8(m.time@) == stamp
                &&& encode_utf8(m.message_type@) == status
                &&& encode_utf8(m.data@) == lines@[2]@
            } else {
                sms == Err::<SMS, ModemError>(ModemError::InvalidText)
            },
        },
{
    match parse_message_header(lines[1].as_slice()) {
        Some((status, sender, _, stamp)) => {
            let mut text: Vec<u8> = Vec::new();
            text.extend_from_slice(lines[2].as_slice());
            assert(text@ =~= lines@[2]@);
            match string_from_utf8(text) {
                Some(data) => Ok(SMS {
                    received_number: sender.clone(),
                    send_number: sender,
                    time: stamp,
                    data,
                    message_type: status,
                }),
                None => Err(ModemError::InvalidText),
            }
        },
        None => Err(ModemError::UnparsableATResponse(UnparsableATResponse)),
    }
}

fn is_sim_storage(name: &String) -> (is_sim: bool)
    ensures
        is_sim == (encode_utf8(name@) == sim_storage()),
{
    let bytes = name.as_str().as_bytes();
    let r = bytes.len() == 2 && bytes[0] == 83 && bytes[1] == 77;
    assert(r ==> bytes@ =~= sim_storage());
    r
}

/// The slot to read after a new-message report: the reported slot where the
/// message is on the SIM, nothing for any other storage.
pub fn stored_message_slot(response: &[u8]) -> (slot: Result<Option<i32>, ModemError>)
    ensures
        slot == match new_message_report(response@) {
            Some((storage, s)) => if storage == sim_storage() {
                Ok::<Option<i32>, ModemError>(Some(s))
            } else {
                Ok(None)
            },
            None => Err(unparsable()),
        },
{
    match parse_new_message_report(response) {
        Some((storage, s)) => {
            if is_sim_storage(&storage) {
                Ok(Some(s))
            } else {
                Ok(None)
            }
        },
        None => Err(ModemError::UnparsableATResponse(UnparsableATResponse)),
    }
}

/// Whether the modem confirmed a sent message.
pub fn sent_status(response: &[u8]) -> (sent: Result<(), ModemError>)
    ensures
        sent == if message_sent(response@) { Ok::<(), ModemError>(()) } else { Err(unparsable()) },
{
    if parse_message_sent(response) {
        Ok(())
    } else {
        Err(ModemError::UnparsableATResponse(UnparsableATResponse))
    }
}

/// What an unsolicited line announces: the boot notice and anything unknown
/// announce nothing; a new-message notice announces its slot.
pub fn classify_notice(line: &[u8]) -> (status: ModemStatus)
    ensures
        status == if app_ready(line@) {
            ModemStatus::NONE
        } else {
            match new_message_notice(line@) {
                Some((_, slot)) => ModemStatus::SMS(slot),
                None => ModemStatus::NONE,
            }
        },
{
    if parse_app_ready(line) {
        return ModemStatus::NONE;
    }
    match parse_new_message_notice(line) {
        Some((_, slot)) => ModemStatus::SMS(slot),
        None => ModemStatus::NONE,
    }
}

} // verus!

verus! {

/// The pause between two pulling rounds when none is configured, in ms.
pub const DEFAULT_PULL_TIME_MS: u64 = 300000;

/// The text of a message that reports a failed read.
pub open spec fn error_report_text(description: Seq<char>) -> Seq<char> {
    "There was a error while writing: "@ + description
}

/// The message forwarded when reading from the modem failed: every field says
/// `Error`, but the time, which says `Now`, and the text, which carries the
/// description of the failure.
pub fn error_sms(description: &str) -> (sms: SMS)
    ensures
        sms.received_number@ == "Error"@,
        sms.send_number@ == "Error"@,
        sms.time@ == "Now"@,
        sms.message_type@ == "Error"@,
        sms.data@ == error_report_text(description@),
{
    let mut data = "There was a error while writing: ".to_owned();
    data.append(description);
    SMS {
        received_number: "Error".to_owned(),
        send_number: "Error".to_owned(),
        time: "Now".to_owned(),
        data,
        message_type: "Error".to_owned(),
    }
}

/// Whether `sms` is the report of a failed read with this description (see
/// `error_sms`).
pub open spec fn is_error_report(sms: SMS, description: Seq<char>) -> bool {
    &&& sms.received_number@ == "Error"@
    &&& sms.send_number@ == "Error"@
    &&& sms.time@ == "Now"@
    &&& sms.message_type@ == "Error"@
    &&& sms.data@ == error_report_text(description)
}

/// What the waiting strategy does after one look at the modem.
#[derive(Debug)]
pub enum WaitStep {
    /// Nothing new: check the modem's power and wait again.
    CheckPower,
    /// A message was stored in this slot: read it, forward it, delete it,
    /// then check the modem's power.
    Forward(i32),
    /// The modem's answer could not be read: forward this report and stop.
    Report(SMS),
}

/// The decision of the waiting strategy on what the modem announced (or the
/// description of why its answer could not be read): a new message is read
/// from its slot, a failure is reported, anything else only leads to a power
/// check.
pub fn waiting_step(status: Result<ModemStatus, String>) -> (step: WaitStep)
    ensures
        match status {
            Ok(ModemStatus::SMS(slot)) => step == WaitStep::Forward(slot),
            Ok(_) => step == WaitStep::CheckPower,
            Err(description) => step matches WaitStep::Report(sms) && is_error_report(sms, description@),
        },
{
    match status {
        Ok(ModemStatus::SMS(slot)) => WaitStep::Forward(slot),
        Ok(_) => WaitStep::CheckPower,
        Err(description) => WaitStep::Report(error_sms(description.as_str())),
    }
}

/// What a pulling round does with the storage slot it just tried to read.
#[derive(Debug)]
pub enum PullAction {
    /// A message was read: forward it, then delete its slot.
    Forward(SMS),
    /// The slot held no readable message: leave it.
    Skip,
}

/// One step of a pulling round: the action for the slot just read, and the
/// slot to read next, if any.
#[derive(Debug)]
pub struct PullStep {
    pub action: PullAction,
    pub next: Option<i32>,
}

/// A pulling round reads every slot from `FIRST_SLOT` to `LAST_SLOT` in turn;
/// a message that was read is forwarded and its slot deleted, a slot that
/// could not be read is left.
pub fn pull_step(slot: i32, read: Option<SMS>) -> (step: PullStep)
    ensures
        step.action == match read {
            Some(sms) => PullAction::Forward(sms),
            None => PullAction::Skip,
        },
        step.next == if slot < LAST_SLOT { Some((slot + 1) as i32) } else { None::<i32> },
{
    let action = match read {
        Some(sms) => PullAction::Forward(sms),
        None => PullAction::Skip,
    };
    let next = if slot < LAST_SLOT { Some(slot + 1) } else { None };
    PullStep { action, next }
}

/// The configured strategy: waiting when the setting is exactly `WAIT`,
/// pulling otherwise.
pub fn strategy_from(setting: Option<String>) -> (strategy: Strategy)
    ensures
        strategy == match setting {
            Some(s) => if s@ == "WAIT"@ { Strategy::WAIT } else { Strategy::PULL },
            None => Strategy::PULL,
        },
{
    match setting {
        Some(s) => {
            if s == "WAIT".to_owned() {
                Strategy::WAIT
            } else {
                Strategy::PULL
            }
        },
        None => Strategy::PULL,
    }
}

/// The configured pause between pulling rounds, in ms: the setting read as a
/// number, or the default where it is missing or not a number.
pub fn pull_time_from(setting: Option<String>) -> (millis: u64)
    ensures
        millis == match setting {
            Some(s) => match crate::text::decimal_u64(encode_utf8(s@)) {
                Some(v) => v,
                None => DEFAULT_PULL_TIME_MS,
            },
            None => DEFAULT_PULL_TIME_MS,
        },
{
    match setting {
        Some(s) => match crate::text::parse_u64(s.as_str()) {
            Some(v) => v,
            None => DEFAULT_PULL_TIME_MS,
        },
        None => DEFAULT_PULL_TIME_MS,
    }
}

} // verus!
