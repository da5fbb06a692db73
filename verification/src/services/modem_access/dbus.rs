//! What ModemManager's D-Bus answers mean.

use vstd::prelude::*;

use super::ModemError;
use crate::text::{self, contains_text, join};

verus! {

/// The object path is that of a modem.
pub open spec fn is_modem_path(path: Seq<char>) -> bool {
    text::occurs(path, "/Modem/"@)
}

/// The modems among the managed objects, in their order.
pub open spec fn modems_among(paths: Seq<String>) -> Seq<String>
    decreases paths.len(),
{
    if paths.len() == 0 {
        Seq::empty()
    } else if is_modem_path(paths.last()@) {
        modems_among(paths.drop_last()).push(paths.last())
    } else {
        modems_among(paths.drop_last())
    }
}

/// The object paths of the modems among the managed objects. It is an error if there
/// are none.
pub fn modem_paths(objects: &Vec<String>) -> (r: Result<Vec<String>, ModemError>)
    ensures
        match r {
            Ok(v) => v@ == modems_among(objects@) && v@.len() > 0,
            Err(e) => e == ModemError::NoModem && modems_among(objects@).len() == 0,
        },
{
    let mut out: Vec<String> = Vec::new();
    for i in 0..objects.len()
        invariant
            out@ == modems_among(objects@.take(i as int)),
    {
        proof {
            assert(objects@.take(i + 1).drop_last() =~= objects@.take(i as int));
            assert(objects@.take(i + 1).last() == objects@[i as int]);
        }
        if contains_text(objects[i].as_str(), "/Modem/") {
            out.push(objects[i].clone());
        }
    }
    assert(objects@.take(objects@.len() as int) =~= objects@);
    if out.len() == 0 {
        Err(ModemError::NoModem)
    } else {
        Ok(out)
    }
}

/// The error that a failed AT command call stands for, by its message.
pub fn command_error(message: &str) -> (r: ModemError)
    ensures
        if text::occurs(message@, "Timeout"@) || text::occurs(message@, "timeout"@) {
            r == ModemError::Timeout
        } else {
            r.is_dbus("AT command failed: "@ + message@)
        },
{
    if contains_text(message, "Timeout") || contains_text(message, "timeout") {
        ModemError::Timeout
    } else {
        ModemError::Dbus(join("AT command failed: ", message))
    }
}

/// The modems are the objects with `/Modem/` in their path, all of them and in their
/// order; without one the error says that there is no modem.
pub proof fn modems_are_found_by_their_path(
    objects: &Vec<String>,
    r: Result<Vec<String>, ModemError>,
)
    requires
        call_ensures(modem_paths, (objects,), r),
    ensures
        ({
            let found = objects@.filter(|p: String| text::occurs(p@, "/Modem/"@));
            match r {
                Ok(v) => v@ == found && found.len() > 0,
                Err(e) => e == ModemError::NoModem && found.len() == 0,
            }
        }),
{
    lemma_modems_are_filtered(objects@);
}

proof fn lemma_modems_are_filtered(paths: Seq<String>)
    ensures
        modems_among(paths) == paths.filter(|p: String| text::occurs(p@, "/Modem/"@)),
    decreases paths.len(),
{
    reveal(Seq::filter);
    if paths.len() > 0 {
        lemma_modems_are_filtered(paths.drop_last());
    }
}

/// A failed command whose message speaks of a timeout, capitalised or not, is a timeout;
/// any other is a fault with its message.
pub proof fn timeouts_are_told_by_their_message(message: &str, r: ModemError)
    requires
        call_ensures(command_error, (message,), r),
    ensures
        r == ModemError::Timeout <==> text::occurs(message@, "Timeout"@) || text::occurs(
            message@,
            "timeout"@,
        ),
        r != ModemError::Timeout ==> (r matches ModemError::Dbus(m) && m@
            == "AT command failed: "@ + message@),
{
}

} // verus!
