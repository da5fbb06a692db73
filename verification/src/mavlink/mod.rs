//! MAVLink messages of the on-board controller.

pub mod drone_component;

use vstd::prelude::*;

verus! {

/// System IDs below this threshold are considered flight controllers.
pub const FC_SYSID_THRESHOLD: u8 = 200;

/// The header of a MAVLink message.
#[derive(Debug, Clone, Copy, PartialEq, Eq, Structural)]
pub struct MavHeader {
    pub system_id: u8,
    pub component_id: u8,
    pub sequence: u8,
}

/// Kinds of MAVLink systems that this unit reports.
#[allow(non_camel_case_types)]
#[derive(Debug, Clone, Copy, PartialEq, Eq, Structural)]
pub enum MavType {
    MAV_TYPE_ONBOARD_CONTROLLER,
}

/// Autopilots that this unit reports.
#[allow(non_camel_case_types)]
#[derive(Debug, Clone, Copy, PartialEq, Eq, Structural)]
pub enum MavAutopilot {
    MAV_AUTOPILOT_INVALID,
}

/// States that this unit reports.
#[allow(non_camel_case_types)]
#[derive(Debug, Clone, Copy, PartialEq, Eq, Structural)]
pub enum MavState {
    MAV_STATE_ACTIVE,
}

/// Mode flags as a bit set.
#[derive(Debug, Clone, Copy, PartialEq, Eq, Structural)]
pub struct MavModeFlag {
    pub bits: u8,
}

impl MavModeFlag {
    /// No flag set.
    pub fn empty() -> (r: Self)
        ensures
            r.bits == 0,
    {
        MavModeFlag { bits: 0 }
    }
}

/// The fields of a HEARTBEAT message.
#[allow(non_camel_case_types)]
#[derive(Debug, Clone, Copy, PartialEq, Eq, Structural)]
pub struct HEARTBEAT_DATA {
    pub custom_mode: u32,
    pub mavtype: MavType,
    pub autopilot: MavAutopilot,
    pub base_mode: MavModeFlag,
    pub system_status: MavState,
    pub mavlink_version: u8,
}

/// Messages that this unit sends.
#[allow(non_camel_case_types)]
#[derive(Debug, Clone, Copy, PartialEq, Eq, Structural)]
pub enum MavMessage {
    HEARTBEAT(HEARTBEAT_DATA),
}

/// A MAVLink message with its header.
pub type MavFrame = (MavHeader, MavMessage);

/// A flight controller's system ID.
pub open spec fn is_fc(id: u8) -> bool {
    0 < id < FC_SYSID_THRESHOLD
}

/// Returns true if the given system ID belongs to a flight controller.
/// Excludes system ID 0 (MAVLink broadcast/reserved address).
pub fn is_fc_sysid(id: u8) -> (r: bool)
    ensures
        r == is_fc(id),
{
    id > 0 && id < FC_SYSID_THRESHOLD
}

/// The heartbeat of an active on-board controller that is no autopilot.
pub open spec fn heartbeat(sysid: u8, compid: u8) -> MavFrame {
    (
        MavHeader { system_id: sysid, component_id: compid, sequence: 0 },
        MavMessage::HEARTBEAT(
            HEARTBEAT_DATA {
                custom_mode: 0,
                mavtype: MavType::MAV_TYPE_ONBOARD_CONTROLLER,
                autopilot: MavAutopilot::MAV_AUTOPILOT_INVALID,
                base_mode: MavModeFlag { bits: 0 },
                system_status: MavState::MAV_STATE_ACTIVE,
                mavlink_version: 3,
            },
        ),
    )
}

/// Build a MAVLink v2 HEARTBEAT message for the onboard controller.
///
/// Uses MAV_TYPE_ONBOARD_CONTROLLER and MAV_AUTOPILOT_INVALID.
pub fn build_heartbeat(sysid: u8, compid: u8) -> (r: MavFrame)
    ensures
        r == heartbeat(sysid, compid),
{
    let header = MavHeader { system_id: sysid, component_id: compid, sequence: 0 };
    let msg = MavMessage::HEARTBEAT(
        HEARTBEAT_DATA {
            custom_mode: 0,
            mavtype: MavType::MAV_TYPE_ONBOARD_CONTROLLER,
            autopilot: MavAutopilot::MAV_AUTOPILOT_INVALID,
            base_mode: MavModeFlag::empty(),
            system_status: MavState::MAV_STATE_ACTIVE,
            mavlink_version: 3,
        },
    );
    (header, msg)
}

/// What happens to the heartbeat loop.
#[derive(Debug, Clone, Copy, PartialEq, Eq, Structural)]
pub enum HeartbeatEvent {
    /// The loop is to stop.
    Cancelled,
    /// A second has passed.
    Tick,
    /// The heartbeat was queued.
    Queued,
    /// The queue was full.
    QueueFull,
    /// The queue is gone.
    QueueClosed,
}

/// What the heartbeat loop does next.
#[derive(Debug, Clone, Copy)]
pub enum HeartbeatAction {
    /// Queue this frame.
    Send(MavFrame),
    /// Wait for the next second.
    Wait,
    /// End the loop.
    Stop,
}

/// One step of the heartbeat loop: a frame per second; one that finds the queue full
/// is dropped.
pub fn heartbeat_step(event: HeartbeatEvent, sysid: u8, compid: u8) -> (r: HeartbeatAction)
    ensures
        match event {
            HeartbeatEvent::Tick => r == HeartbeatAction::Send(heartbeat(sysid, compid)),
            HeartbeatEvent::Queued | HeartbeatEvent::QueueFull => r == HeartbeatAction::Wait,
            HeartbeatEvent::Cancelled | HeartbeatEvent::QueueClosed => r == HeartbeatAction::Stop,
        },
{
    match event {
        HeartbeatEvent::Tick => HeartbeatAction::Send(build_heartbeat(sysid, compid)),
        HeartbeatEvent::Queued => HeartbeatAction::Wait,
        HeartbeatEvent::QueueFull => HeartbeatAction::Wait,
        HeartbeatEvent::Cancelled => HeartbeatAction::Stop,
        HeartbeatEvent::QueueClosed => HeartbeatAction::Stop,
    }
}

/// The system IDs from 1 up to 199 are those of flight controllers, and no others are:
/// neither the broadcast address nor any from 200 up.
pub proof fn flight_controllers_are_below_200(id: u8, r: bool)
    requires
        call_ensures(is_fc_sysid, (id,), r),
    ensures
        r <==> 1 <= id <= 199,
{
}

/// A heartbeat carries the system and component ID that it is built with, and tells of an
/// active on-board controller that is no autopilot, with no mode set, in the third version
/// of the protocol.
pub proof fn heartbeats_carry_their_ids(sysid: u8, compid: u8, r: MavFrame)
    requires
        call_ensures(build_heartbeat, (sysid, compid), r),
    ensures
        r.0.system_id == sysid,
        r.0.component_id == compid,
        r.0.sequence == 0,
        r.1 matches MavMessage::HEARTBEAT(d) && d.mavtype == MavType::MAV_TYPE_ONBOARD_CONTROLLER
            && d.autopilot == MavAutopilot::MAV_AUTOPILOT_INVALID && d.system_status
            == MavState::MAV_STATE_ACTIVE && d.base_mode.bits == 0 && d.custom_mode == 0
            && d.mavlink_version == 3,
{
}

/// Every second gives one heartbeat with this unit's IDs. A full queue costs that one
/// heartbeat only; the loop ends when it is to stop and when the queue is gone.
pub proof fn heartbeats_go_on_over_a_full_queue(
    event: HeartbeatEvent,
    sysid: u8,
    compid: u8,
    r: HeartbeatAction,
)
    requires
        call_ensures(heartbeat_step, (event, sysid, compid), r),
    ensures
        r is Send <==> event == HeartbeatEvent::Tick,
        r matches HeartbeatAction::Send(frame) ==> frame.0.system_id == sysid
            && frame.0.component_id == compid,
        r is Stop <==> event == HeartbeatEvent::Cancelled || event == HeartbeatEvent::QueueClosed,
        event == HeartbeatEvent::QueueFull ==> r is Wait,
{
}

} // verus!
