//! Serial port defaults and the choice of router.
use vstd::prelude::*;
use crate::email::message::{address_accepted, optional_text, Recipient};

verus! {

/// Where the modem is attached and how to talk to it.
#[derive(Clone, Debug)]
pub struct SerialPortConfig {
    pub serial_port: String,
    pub baud_rate: u32,
    pub timeout_ms: u64,
}

impl Default for SerialPortConfig {
    fn default() -> (config: Self)
        ensures
            config.serial_port@ == "/dev/ttyUSB3"@,
            config.baud_rate == 115200,
            config.timeout_ms == 5000,
    {
        Self { serial_port: "/dev/ttyUSB3".to_owned(), baud_rate: 115200, timeout_ms: 5000 }
    }
}

/// The mail account settings that must all be present (`EMAIL`, `SERVER`,
/// `PASSWORD`) together with the choice of router (`ROUTER`).
pub fn required_settings_present(email: bool, server: bool, password: bool, router: bool) -> (present: bool)
    ensures
        present == (email && server && password && router),
{
    email && server && password && router
}

/// Which router forwards the messages.
pub enum GatewayChoice {
    /// Everything to one receiver.
    Default { receiver: Recipient },
    /// By lookup in the database at this path.
    Sql { backend: String },
}

/// Why no router could be chosen.
#[derive(Clone, Copy, Debug, PartialEq, Eq, Structural)]
pub enum ConfigError {
    /// The default router needs a receiver.
    MissingRecipient,
    /// The receiver is not a valid e-mail address.
    InvalidRecipient,
    /// The database router needs the database's path.
    MissingSqlBackend,
    /// The router setting names no known router.
    UnknownRouter,
}

/// Chooses the router named by `router`: `default` forwards to `recipient`
/// (named like the sender), `sql` looks receivers up in `sql_backend`.
pub fn choose_gateway(router: String, sender_name: Option<String>, recipient: Option<String>, sql_backend: Option<String>)
    -> (choice: Result<GatewayChoice, ConfigError>)
    ensures
        router@ == "default"@ ==> match recipient {
            None => choice == Err::<GatewayChoice, ConfigError>(ConfigError::MissingRecipient),
            Some(r) => if address_accepted(r@) {
                choice matches Ok(GatewayChoice::Default { receiver }) && receiver@ == (optional_text(sender_name), r@)
            } else {
                choice == Err::<GatewayChoice, ConfigError>(ConfigError::InvalidRecipient)
            },
        },
        router@ == "sql"@ ==> match sql_backend {
            None => choice == Err::<GatewayChoice, ConfigError>(ConfigError::MissingSqlBackend),
            Some(b) => choice matches Ok(GatewayChoice::Sql { backend }) && backend@ == b@,
        },
        router@ != "default"@ && router@ != "sql"@
            ==> choice == Err::<GatewayChoice, ConfigError>(ConfigError::UnknownRouter),
{
    proof {
        reveal_strlit("default");
        reveal_strlit("sql");
        assert("sql"@.len() == 3);
        assert("default"@.len() == 7);
        assert("sql"@ != "default"@);
    }
    if router == "default".to_owned() {
        match recipient {
            Some(r) => match Recipient::new(sender_name, r) {
                Ok(receiver) => Ok(GatewayChoice::Default { receiver }),
                Err(_) => Err(ConfigError::InvalidRecipient),
            },
            None => Err(ConfigError::MissingRecipient),
        }
    } else if router == "sql".to_owned() {
        match sql_backend {
            Some(backend) => Ok(GatewayChoice::Sql { backend }),
            None => Err(ConfigError::MissingSqlBackend),
        }
    } else {
        Err(ConfigError::UnknownRouter)
    }
}

} // verus!
