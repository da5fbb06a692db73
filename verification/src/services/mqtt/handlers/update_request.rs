//! The `update_request` command.

use vstd::prelude::*;

use crate::messages::commands::{
    CommandEnvelope, CommandPayload, CommandResultData, UpdateRequestResult,
};
use crate::services::mqtt::commands::{CommandError, CommandHandler, CommandResult};

verus! {

/// Handler for `update_request` commands.
///
/// Receives an update request payload and acknowledges receipt.
/// This is a placeholder implementation — the real update mechanism (e.g.,
/// downloading and applying a firmware/software update) is not yet implemented.
#[derive(Debug, Clone, Copy, Default)]
pub struct UpdateRequestHandler {}

impl UpdateRequestHandler {
    pub const NAME: &'static str = "update_request";

    pub fn new() -> (r: Self)
        ensures
            r == (UpdateRequestHandler {  }),
    {
        Self {  }
    }
}

impl CommandHandler for UpdateRequestHandler {
    open spec fn may_answer(
        before: Self,
        envelope: CommandEnvelope,
        after: Self,
        r: Result<CommandResult, CommandError>,
    ) -> bool {
        &&& after == before
        &&& match envelope.payload {
            CommandPayload::UpdateRequest(p) => {
                &&& r matches Ok(result)
                &&& result.data matches CommandResultData::UpdateRequest(data)
                &&& data.message@ == "update request acknowledged (placeholder)"@
                &&& data.version@ == p.version@
            },
            _ => r matches Err(e) && e.message@ == "expected UpdateRequest payload"@,
        }
    }

    fn handle(&mut self, envelope: &CommandEnvelope) -> (r: Result<CommandResult, CommandError>) {
        match &envelope.payload {
            CommandPayload::UpdateRequest(p) => Ok(
                CommandResult {
                    data: CommandResultData::UpdateRequest(
                        UpdateRequestResult {
                            message: "update request acknowledged (placeholder)".to_string(),
                            version: p.version.clone(),
                        },
                    ),
                },
            ),
            _ => Err(CommandError::new("expected UpdateRequest payload")),
        }
    }
}

/// An update request is acknowledged with the version that it asks for, and another
/// payload is refused.
pub proof fn requested_version_is_acknowledged(
    handler: &mut UpdateRequestHandler,
    envelope: &CommandEnvelope,
    r: Result<CommandResult, CommandError>,
)
    requires
        call_ensures(
            <UpdateRequestHandler as CommandHandler>::handle,
            (handler, envelope),
            r,
        ),
    ensures
        r is Ok <==> envelope.payload is UpdateRequest,
        envelope.payload matches CommandPayload::UpdateRequest(p) ==> (r matches Ok(result)
            && result.data is UpdateRequest && (result.data->UpdateRequest_0).version@
            == p.version@),
{
}

} // verus!
