//! The state that the parts of the unit share.

use std::collections::HashSet;

use vstd::prelude::*;

use crate::config::Config;
use crate::mavlink::{self, is_fc_sysid, FC_SYSID_THRESHOLD};
use crate::sensors::SensorValues;

verus! {

/// Slots of the channel for incoming MAVLink messages.
pub const BROADCAST_CAPACITY: usize = 256;

/// Slots of the queue for outgoing MAVLink messages.
pub const OUTGOING_CAPACITY: usize = 500;

/// Shared application context: the configuration and the runtime state, with a
/// handle of type `M` to the modem.
pub struct Context<M> {
    /// Application configuration (read-only after startup).
    pub config: Config,
    /// Set of discovered system IDs (from heartbeats).
    pub available_systems: HashSet<u8>,
    /// Current sensor readings, updated by sensor tasks.
    pub sensors: SensorValues,
    /// Modem access service, set after modem discovery completes.
    pub modem: Option<M>,
}

/// Where the wait for a flight controller stands.
#[derive(Debug)]
pub enum FcWait {
    /// The wait is to end.
    Cancelled,
    /// None was discovered yet.
    Waiting,
    /// These were discovered.
    Found(HashSet<u8>),
}

/// The flight controllers among the systems.
pub open spec fn fc_among(systems: Set<u8>) -> Set<u8> {
    systems.filter(|id: u8| mavlink::is_fc(id))
}

/// `r` is the smallest of `ids`, if there is one.
pub open spec fn is_smallest(ids: Set<u8>, r: Option<u8>) -> bool {
    match r {
        Some(m) => ids.contains(m) && forall|id: u8| #[trigger] ids.contains(id) ==> m <= id,
        None => forall|id: u8| !#[trigger] ids.contains(id),
    }
}

impl<M> Context<M> {
    /// Create a new context from the given configuration.
    pub fn new(config: Config) -> (r: Self)
        ensures
            r.config == config,
            r.available_systems@ == Set::<u8>::empty(),
            r.sensors.ping is None,
            r.sensors.lte is None,
            r.sensors.system is None,
            r.sensors.cpu_temp is None,
            r.modem is None,
    {
        Context {
            config,
            available_systems: HashSet::new(),
            sensors: SensorValues::none(),
            modem: None,
        }
    }

    /// Resolve the effective MAVLink self system ID.
    ///
    /// Returns the configured `mavlink.self_sysid` when it is non-zero.
    /// When the config value is `0`, autodiscovers the sysid as the minimum
    /// entry of `available_systems` (typically the FC), or `None` if no
    /// systems have been discovered yet.
    pub fn self_sysid(&self) -> (r: Option<u8>)
        ensures
            self.config.mavlink.self_sysid > 0 ==> r == Some(self.config.mavlink.self_sysid),
            self.config.mavlink.self_sysid == 0 ==> is_smallest(self.available_systems@, r),
    {
        broadcast use vstd::std_specs::hash::group_hash_axioms;

        let configured: u8 = self.config.mavlink.self_sysid;
        if configured > 0 {
            return Some(configured);
        }
        for id in 0u8..u8::MAX
            invariant
                self.config.mavlink.self_sysid == 0,
                forall|k: u8| k < id ==> !#[trigger] self.available_systems@.contains(k),
        {
            if self.available_systems.contains(&id) {
                return Some(id);
            }
        }
        if self.available_systems.contains(&u8::MAX) {
            Some(u8::MAX)
        } else {
            None
        }
    }

    /// Retrieves a set of Flight Controller (FC) system IDs.
    pub fn get_fc_sysids(&self) -> (r: HashSet<u8>)
        ensures
            r@ == fc_among(self.available_systems@),
    {
        broadcast use vstd::std_specs::hash::group_hash_axioms;

        let mut out: HashSet<u8> = HashSet::new();
        let mut id: u8 = 0;
        while id < FC_SYSID_THRESHOLD
            invariant
                id <= FC_SYSID_THRESHOLD,
                forall|k: u8| #[trigger]
                    out@.contains(k) <==> k < id && fc_among(self.available_systems@).contains(k),
            decreases FC_SYSID_THRESHOLD - id,
        {
            if is_fc_sysid(id) && self.available_systems.contains(&id) {
                out.insert(id);
            }
            id = id + 1;
        }
        assert(out@ =~= fc_among(self.available_systems@));
        out
    }

    /// Whether to go on waiting for a flight controller to be discovered.
    pub fn wait_for_fc(&self, cancelled: bool) -> (r: FcWait)
        ensures
            match r {
                FcWait::Cancelled => cancelled,
                FcWait::Waiting => !cancelled && fc_among(self.available_systems@) == Set::<u8>::empty(),
                FcWait::Found(ids) => !cancelled && ids@ == fc_among(self.available_systems@)
                    && ids@ != Set::<u8>::empty(),
            },
    {
        broadcast use vstd::std_specs::hash::group_hash_axioms;

        if cancelled {
            return FcWait::Cancelled;
        }
        let ids = self.get_fc_sysids();
        if ids.is_empty() {
            assert(ids@ =~= Set::<u8>::empty());
            FcWait::Waiting
        } else {
            FcWait::Found(ids)
        }
    }

    /// Register a discovered system ID. Returns `true` if the system was newly added.
    pub fn add_system(&mut self, system_id: u8) -> (r: bool)
        ensures
            r == !old(self).available_systems@.contains(system_id),
            final(self).available_systems@ == old(self).available_systems@.insert(system_id),
            final(self).config == old(self).config,
            final(self).sensors == old(self).sensors,
            final(self).modem == old(self).modem,
    {
        broadcast use vstd::std_specs::hash::group_hash_axioms;

        self.available_systems.insert(system_id)
    }

    /// Check if a system ID has been discovered.
    pub fn has_system(&self, system_id: u8) -> (r: bool)
        ensures
            r == self.available_systems@.contains(system_id),
    {
        broadcast use vstd::std_specs::hash::group_hash_axioms;

        self.available_systems.contains(&system_id)
    }

    /// Store the modem access service after discovery completes.
    pub fn set_modem(&mut self, modem: M)
        ensures
            final(self).modem == Some(modem),
            final(self).config == old(self).config,
            final(self).sensors == old(self).sensors,
            final(self).available_systems == old(self).available_systems,
    {
        self.modem = Some(modem);
    }

    /// Get the modem access service, if available.
    pub fn get_modem(&self) -> (r: Option<&M>)
        ensures
            match self.modem {
                Some(m) => r == Some(&m),
                None => r is None,
            },
    {
        self.modem.as_ref()
    }
}

/// A configured system ID of zero is resolved to a system that was discovered, and to
/// none only while there is none. Once a flight controller was discovered, it is
/// resolved to a flight controller, unless a heartbeat came from the broadcast address.
pub proof fn autodiscovery_finds_a_system(systems: Set<u8>, r: Option<u8>)
    requires
        is_smallest(systems, r),
    ensures
        r matches Some(id) ==> systems.contains(id),
        r is None <==> systems == Set::<u8>::empty(),
        fc_among(systems) != Set::<u8>::empty() && !systems.contains(0) ==> (r matches Some(id)
            && mavlink::is_fc(id)),
{
    if r is None {
        assert(systems =~= Set::<u8>::empty());
    }
    if fc_among(systems) != Set::<u8>::empty() {
        if forall|id: u8| !#[trigger] fc_among(systems).contains(id) {
            assert(fc_among(systems) =~= Set::<u8>::empty());
        }
        let fc = choose|id: u8| #[trigger] fc_among(systems).contains(id);
        assert(systems.contains(fc));
    }
}

/// The flight controllers of a context are the discovered systems with an ID from 1 up to
/// 199, all of them and no others.
pub proof fn flight_controllers_are_found_by_id<M>(ctx: &Context<M>, r: HashSet<u8>, id: u8)
    requires
        call_ensures(Context::<M>::get_fc_sysids, (ctx,), r),
    ensures
        r@.contains(id) <==> ctx.available_systems@.contains(id) && 1 <= id <= 199,
{
}

/// The wait for a flight controller ends as soon as one was discovered, whichever other
/// systems were, and not before; a cancellation ends it in any case.
pub proof fn wait_ends_with_a_flight_controller<M>(ctx: &Context<M>, cancelled: bool, r: FcWait)
    requires
        call_ensures(Context::<M>::wait_for_fc, (ctx, cancelled), r),
    ensures
        cancelled <==> r is Cancelled,
        !cancelled ==> (r is Found <==> exists|id: u8|
            #[trigger] ctx.available_systems@.contains(id) && 1 <= id <= 199),
        r matches FcWait::Found(ids) ==> forall|id: u8|
            #[trigger] ids@.contains(id) <==> ctx.available_systems@.contains(id) && 1 <= id <= 199,
{
    let all = fc_among(ctx.available_systems@);
    if r is Found {
        if forall|id: u8| !#[trigger] all.contains(id) {
            assert(all =~= Set::<u8>::empty());
        }
        let id = choose|id: u8| #[trigger] all.contains(id);
        assert(ctx.available_systems@.contains(id));
    }
    if r is Waiting {
        assert forall|id: u8| #[trigger] ctx.available_systems@.contains(id) implies !(1 <= id
            <= 199) by {
            assert(!all.contains(id));
        }
    }
}

/// A configured system ID counts as it is. Otherwise the smallest discovered one does, and
/// none as long as there is none.
pub proof fn own_id_is_configured_or_smallest<M>(ctx: &Context<M>, r: Option<u8>, id: u8)
    requires
        call_ensures(Context::<M>::self_sysid, (ctx,), r),
    ensures
        ctx.config.mavlink.self_sysid != 0 ==> r == Some(ctx.config.mavlink.self_sysid),
        ctx.config.mavlink.self_sysid == 0 && ctx.available_systems@.contains(id) ==> (r matches
            Some(own) && own <= id && ctx.available_systems@.contains(own)),
        ctx.config.mavlink.self_sysid == 0 && r is None ==> !ctx.available_systems@.contains(id),
{
}

/// A system that was added is known from then on, and so is every one that was known
/// before; adding one tells whether it is new, and touches nothing else.
pub proof fn added_systems_stay_known<M>(
    ctx: &mut Context<M>,
    added: u8,
    other: u8,
    newly: bool,
    before: bool,
    after: bool,
)
    requires
        call_ensures(Context::<M>::has_system, (&*old(ctx), other), before),
        call_ensures(Context::<M>::add_system, (ctx, added), newly),
        call_ensures(Context::<M>::has_system, (&*final(ctx), other), after),
    ensures
        after <==> before || other == added,
        other == added ==> newly == !before,
        final(ctx).config == old(ctx).config,
        final(ctx).modem == old(ctx).modem,
        final(ctx).sensors == old(ctx).sensors,
{
}

/// The modem that was stored is the one that is given out; before, there is none.
pub proof fn stored_modem_is_given_out<M>(
    config: Config,
    fresh: Context<M>,
    ctx: &mut Context<M>,
    modem: M,
    r: Option<&M>,
    none: Option<&M>,
)
    requires
        call_ensures(Context::<M>::new, (config,), fresh),
        call_ensures(Context::<M>::get_modem, (&fresh,), none),
        call_ensures(Context::<M>::set_modem, (ctx, modem), ()),
        call_ensures(Context::<M>::get_modem, (&*final(ctx),), r),
    ensures
        none is None,
        r == Some(&modem),
        final(ctx).config == old(ctx).config,
        final(ctx).available_systems == old(ctx).available_systems,
        fresh.available_systems@ == Set::<u8>::empty(),
        fresh.config == config,
{
}

} // verus!
