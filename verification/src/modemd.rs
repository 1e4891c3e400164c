//! The gateway in front of the modem: where it is reached, which address each
//! request has, and what each of its answers means.
use vstd::prelude::*;
use crate::message::Message;
use crate::text::{decimal, decimal_string};

verus! {

/// Where the gateway is looked for when nothing else is configured.
pub const DEFAULT_BASE_URL: &'static str = "http://127.0.0.1:222";

/// The status that the gateway answers with when a request went through.
pub const STATUS_OK: u16 = 200;

/// The one configuration value of the gateway client: its base address.
/// It is set before any request is made and only read afterwards.
#[derive(Clone, Debug, PartialEq, Eq)]
pub struct Settings {
    pub base_url: String,
}

impl Settings {
    /// Settings that point to the default address.
    pub fn new() -> (r: Settings)
        ensures
            r.base_url@ == DEFAULT_BASE_URL@,
    {
        Settings { base_url: String::from_str(DEFAULT_BASE_URL) }
    }
}

/// Replaces the base address. Nothing of the old address is kept.
pub fn set_base_url(settings: &mut Settings, url: String)
    ensures
        final(settings).base_url@ == url@,
{
    settings.base_url = url;
}

/// A client for the address that `settings` holds at this moment.
pub fn get_modemd(settings: &Settings) -> (r: ModemdInfo)
    ensures
        r.base_url@ == settings.base_url@,
{
    ModemdInfo::new(settings.base_url.clone())
}

/// What came back for one request to the gateway.
#[derive(Debug, PartialEq, Eq)]
pub enum Response<T> {
    /// The request did not get through; `cause` says why.
    Failed { cause: String },
    /// The gateway answered with a status and a body. `status_text` is the
    /// status as it is shown to a reader; `body` is the decoded body, or the
    /// cause for which it could not be decoded.
    Answered { status: u16, status_text: String, body: Result<T, String> },
}

/// The body of the gateway's answer to a delete request.
#[derive(Clone, Debug, PartialEq, Eq)]
pub struct ResultModemd {
    pub result_code: String,
    pub result: String,
}

/// The address of the request that lists the messages of `slot`.
pub open spec fn list_url(base: Seq<char>, slot: u8) -> Seq<char> {
    base + "/sms_list?M"@ + decimal(slot as nat)
}

/// The address of the request that deletes message `index` of `slot`.
pub open spec fn delete_url(base: Seq<char>, slot: u8, index: u32) -> Seq<char> {
    base + "/sms_delete?M"@ + decimal(slot as nat) + "&index="@ + decimal(index as nat)
}

/// The failure reported when a list request is answered with another status than 200.
pub open spec fn list_status_failure(status_text: Seq<char>) -> Seq<char> {
    "Error getting SMS list: Status is not 200 (Got: "@ + status_text + ")"@
}

/// The failure reported when a delete request is answered with another status than 200.
pub open spec fn delete_status_failure(status_text: Seq<char>) -> Seq<char> {
    "Status is not 200 (Got: "@ + status_text + ")"@
}

/// The failure reported when the gateway answers a delete request with a
/// result other than `OK`.
pub open spec fn delete_result_failure(result: Seq<char>, result_code: Seq<char>) -> Seq<char> {
    "Got result "@ + result + " ("@ + result_code + ")"@
}

/// What the answer to a list request means: the messages in the gateway's
/// order, or the cause of the failure.
pub open spec fn list_outcome(response: Response<Vec<Message>>) -> Result<Vec<Message>, Seq<char>> {
    match response {
        Response::Failed { cause } => Err(cause@),
        Response::Answered { status, status_text, body } => if status != 200 {
            Err(list_status_failure(status_text@))
        } else {
            match body {
                Ok(messages) => Ok(messages),
                Err(cause) => Err(cause@),
            }
        },
    }
}

/// What the answer to a delete request means: `None` where the message was
/// deleted, else the cause of the failure. The status is looked at first, then
/// the result that the body reports.
pub open spec fn delete_outcome(response: Response<ResultModemd>) -> Option<Seq<char>> {
    match response {
        Response::Failed { cause } => Some(cause@),
        Response::Answered { status, status_text, body } => if status != 200 {
            Some(delete_status_failure(status_text@))
        } else {
            match body {
                Ok(report) => if report.result@ == "OK"@ {
                    None
                } else {
                    Some(delete_result_failure(report.result@, report.result_code@))
                },
                Err(cause) => Some(cause@),
            }
        },
    }
}

/// A client of the gateway at one base address.
#[derive(Clone, Debug, PartialEq, Eq)]
pub struct ModemdInfo {
    pub base_url: String,
}

impl ModemdInfo {
    pub fn new(base_url: String) -> (r: ModemdInfo)
        ensures
            r.base_url == base_url,
    {
        ModemdInfo { base_url }
    }

    /// The address to ask for the messages of `slot`.
    pub fn sms_list_url(&self, slot: u8) -> (r: String)
        ensures
            r@ == list_url(self.base_url@, slot),
    {
        let mut s = self.base_url.clone();
        s.append("/sms_list?M");
        s.append(decimal_string(slot as u64).as_str());
        s
    }

    /// The address to ask for the deletion of message `message_index` of `slot`.
    pub fn sms_delete_url(&self, slot: u8, message_index: u32) -> (r: String)
        ensures
            r@ == delete_url(self.base_url@, slot, message_index),
    {
        let mut s = self.base_url.clone();
        s.append("/sms_delete?M");
        s.append(decimal_string(slot as u64).as_str());
        s.append("&index=");
        s.append(decimal_string(message_index as u64).as_str());
        s
    }

    /// Reads the answer to a list request. The messages come back as the
    /// gateway sent them, in its order; every failure comes back as its cause.
    pub fn get_sms_list(&self, response: Response<Vec<Message>>) -> (r: Result<Vec<Message>, String>)
        ensures
            match list_outcome(response) {
                Ok(messages) => r == Ok::<Vec<Message>, String>(messages),
                Err(cause) => r matches Err(e) && e@ == cause,
            },
    {
        match response {
            Response::Failed { cause } => Err(cause),
            Response::Answered { status, status_text, body } => {
                if status != STATUS_OK {
                    let mut e = String::from_str("Error getting SMS list: Status is not 200 (Got: ");
                    e.append(status_text.as_str());
                    e.append(")");
                    return Err(e);
                }
                match body {
                    Ok(messages) => Ok(messages),
                    Err(cause) => Err(cause),
                }
            },
        }
    }

    /// Reads the answer to a delete request. The deletion succeeded exactly
    /// where the status is 200 and the body reports the result `OK`.
    pub fn delete_sms(&self, response: Response<ResultModemd>) -> (r: Result<(), String>)
        ensures
            match delete_outcome(response) {
                None => r is Ok,
                Some(cause) => r matches Err(e) && e@ == cause,
            },
    {
        match response {
            Response::Failed { cause } => Err(cause),
            Response::Answered { status, status_text, body } => {
                if status != STATUS_OK {
                    let mut e = String::from_str("Status is not 200 (Got: ");
                    e.append(status_text.as_str());
                    e.append(")");
                    return Err(e);
                }
                match body {
                    Ok(report) => {
                        let ok = String::from_str("OK");
                        if report.result != ok {
                            let mut e = String::from_str("Got result ");
                            e.append(report.result.as_str());
                            e.append(" (");
                            e.append(report.result_code.as_str());
                            e.append(")");
                            return Err(e);
                        }
                        Ok(())
                    },
                    Err(cause) => Err(cause),
                }
            },
        }
    }
}

} // verus!
