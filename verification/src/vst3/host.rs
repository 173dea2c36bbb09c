//! A minimal host application context.
//!
//! VST3 components and edit controllers receive a host context when they are initialised. Some
//! plugins ask it for the host's name during initialisation and only set themselves up fully when
//! a valid context is available.

use vstd::prelude::*;

use super::{TResult, K_NOT_IMPLEMENTED, K_RESULT_OK};

verus! {

/// The name the host gives itself.
pub const HOST_NAME: &'static str = "Pedalboard VST Host";

/// The number of UTF-16 code units a VST3 string holds (`String128`).
pub const STRING128_LEN: usize = 128;

/// The host's name as UTF-16 code units, each character of the name being one code unit.
pub open spec fn host_name_units() -> Seq<u16> {
    HOST_NAME@.map_values(|c: char| (c as u32) as u16)
}

/// The host's name as written into a VST3 string: its code units and a terminating zero, cut
/// short where the string ends.
pub open spec fn written_name(destination: Seq<u16>) -> Seq<u16> {
    let encoded = host_name_units().push(0u16);
    let length = if encoded.len() < destination.len() { encoded.len() } else { destination.len() };
    encoded.subrange(0, length as int) + destination.subrange(length as int, destination.len() as int)
}

/// The host application context handed to a plugin.
pub struct HostApplication;

impl HostApplication {
    /// Writes the host's name into `destination`, a VST3 string.
    pub fn get_name(&self, destination: &mut Vec<u16>) -> (result: TResult)
        ensures
            result == K_RESULT_OK,
            final(destination)@ == written_name(old(destination)@),
    {
        let encoded = host_name_utf16();
        let length = if encoded.len() < destination.len() {
            encoded.len()
        } else {
            destination.len()
        };
        let ghost original = destination@;
        let mut i: usize = 0;
        while i < length
            invariant
                length <= encoded@.len(),
                length <= original.len(),
                destination@.len() == original.len(),
                i <= length,
                encoded@ == host_name_units().push(0u16),
                forall|k: int| 0 <= k < i ==> #[trigger] destination@[k] == encoded@[k],
                forall|k: int| i <= k < original.len() ==> #[trigger] destination@[k] == original[k],
            decreases length - i,
        {
            destination.set(i, encoded[i]);
            i = i + 1;
        }
        assert(destination@ =~= written_name(original));
        K_RESULT_OK
    }

    /// Plugins cannot ask this host to create objects for them.
    pub fn create_instance(&self) -> (result: TResult)
        ensures
            result == K_NOT_IMPLEMENTED,
    {
        K_NOT_IMPLEMENTED
    }
}

/// The host's name as UTF-16 code units followed by a terminating zero.
pub fn host_name_utf16() -> (units: Vec<u16>)
    ensures
        units@ == host_name_units().push(0u16),
{
    let mut units: Vec<u16> = Vec::new();
    proof {
        reveal_strlit("Pedalboard VST Host");
    }
    let ghost name = HOST_NAME@;
    for c in it: HOST_NAME.chars()
        invariant
            it.seq() == name,
            name == HOST_NAME@,
            forall|k: int| 0 <= k < name.len() ==> (#[trigger] name[k] as u32) < 128,
            units@ == name.take(it.index() as int).map_values(|c: char| (c as u32) as u16),
    {
        assert((c as u32) < 128);
        let unit: u16 = (c as u32) as u16;
        units.push(unit);
        assert(name.take(it.index() + 1) =~= name.take(it.index() as int).push(c));
        assert(units@ =~= name.take(it.index() + 1).map_values(|c: char| (c as u32) as u16));
    }
    assert(name.take(name.len() as int) =~= name);
    units.push(0u16);
    units
}

/// Creates a host application context that can be passed to a plugin's `initialize`.
pub fn create_host_application() -> (host: HostApplication) {
    HostApplication
}

} // verus!
