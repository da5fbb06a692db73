//! The `get_config` command.

use vstd::prelude::*;

use crate::config::Config;
use crate::messages::commands::{
    CommandEnvelope, CommandPayload, CommandResultData, GetConfigResult, SafeConfig,
};
use crate::services::mqtt::commands::{CommandError, CommandHandler, CommandResult};

verus! {

/// Handler for `get_config` commands.
///
/// Returns the current configuration.
/// Uses `SafeConfig` to redact sensitive fields (TLS cert paths).
#[derive(Debug)]
pub struct GetConfigHandler<'a> {
    pub config: &'a Config,
}

impl<'a> GetConfigHandler<'a> {
    pub const NAME: &'static str = "get_config";

    pub fn new(config: &'a Config) -> (r: Self)
        ensures
            r.config == config,
    {
        Self { config }
    }
}

impl<'a> CommandHandler for GetConfigHandler<'a> {
    open spec fn may_answer(
        before: Self,
        envelope: CommandEnvelope,
        after: Self,
        r: Result<CommandResult, CommandError>,
    ) -> bool {
        &&& after == before
        &&& match envelope.payload {
            CommandPayload::GetConfig(_) => {
                &&& r matches Ok(result)
                &&& result.data matches CommandResultData::GetConfig(data)
                &&& data.config.redacts(*before.config)
            },
            _ => r matches Err(e) && e.message@ == "expected GetConfig payload"@,
        }
    }

    fn handle(&mut self, envelope: &CommandEnvelope) -> (r: Result<CommandResult, CommandError>) {
        match &envelope.payload {
            CommandPayload::GetConfig(_) => {},
            _ => {
                return Err(CommandError::new("expected GetConfig payload"));
            },
        }
        let result = GetConfigResult { config: SafeConfig::from(self.config) };
        Ok(CommandResult { data: CommandResultData::GetConfig(Box::new(result)) })
    }
}

/// A question for the configuration is answered with it, three stars in place of each TLS
/// path that is set, and another payload is refused.
pub proof fn answered_configuration_hides_tls_paths<'a>(
    handler: &mut GetConfigHandler<'a>,
    envelope: &CommandEnvelope,
    r: Result<CommandResult, CommandError>,
)
    requires
        call_ensures(
            <GetConfigHandler<'a> as CommandHandler>::handle,
            (handler, envelope),
            r,
        ),
    ensures
        r is Ok <==> envelope.payload is GetConfig,
        r matches Ok(result) ==> {
            &&& result.data is GetConfig
            &&& ({
                let shown = (result.data->GetConfig_0).config;
                let config = *old(handler).config;
                &&& shown.general.ca_cert_path matches Some(s) ==> s@ == "***"@
                &&& shown.general.client_cert_path matches Some(s) ==> s@ == "***"@
                &&& shown.general.client_key_path matches Some(s) ==> s@ == "***"@
                &&& shown.general.ca_cert_path is Some <==> config.general.ca_cert_path is Some
                &&& shown.general.client_cert_path is Some <==> config.general.client_cert_path
                    is Some
                &&& shown.general.client_key_path is Some <==> config.general.client_key_path
                    is Some
                &&& shown.mqtt.host@ == config.mqtt.host@
                &&& shown.mqtt.port == config.mqtt.port
                &&& shown.mavlink == config.mavlink
                &&& shown.sensors == config.sensors
            })
        },
{
}

} // verus!
