//! Device profiles: what the user has set for each device, found by the
//! device's serial number.

use vstd::prelude::*;

verus! {

/// The settings of one device.
#[derive(Debug)]
pub struct ArdeckProfileConfigItem {
    /// Serial number of the device; the key of the profile.
    pub serial_number: String,
    /// Display name of the device.
    pub device_name: Option<String>,
    /// Baud rate to open the device with.
    pub baud_rate: Option<u32>,
    pub description: Option<String>,
    /// Identifier of the mapping preset that the device starts with.
    pub mapping_preset: Option<String>,
}

/// Whether `i` is the first profile of `profiles` for the serial number
/// `serial_number`.
pub open spec fn is_first_profile(
    profiles: Seq<ArdeckProfileConfigItem>,
    serial_number: Seq<char>,
    i: int,
) -> bool {
    &&& 0 <= i < profiles.len()
    &&& profiles[i].serial_number@ == serial_number
    &&& forall|j: int| 0 <= j < i ==> (#[trigger] profiles[j]).serial_number@ != serial_number
}

/// Whether `profiles` has a profile for the serial number `serial_number`.
pub open spec fn has_profile(
    profiles: Seq<ArdeckProfileConfigItem>,
    serial_number: Seq<char>,
) -> bool {
    exists|i: int|
        0 <= i < profiles.len() && (#[trigger] profiles[i]).serial_number@ == serial_number
}

/// The index of the first profile for `serial_number`.
pub fn find_ardeck_profile(profiles: &Vec<ArdeckProfileConfigItem>, serial_number: &String) -> (r:
    Option<usize>)
    ensures
        match r {
            Some(i) => is_first_profile(profiles@, serial_number@, i as int),
            None => !has_profile(profiles@, serial_number@),
        },
{
    let mut i: usize = 0;
    while i < profiles.len()
        invariant
            0 <= i <= profiles.len(),
            forall|j: int|
                0 <= j < i ==> (#[trigger] profiles@[j]).serial_number@ != serial_number@,
        decreases profiles.len() - i,
    {
        if profiles[i].serial_number == *serial_number {
            return Some(i);
        }
        i += 1;
    }
    None
}

/// The first profile for `serial_number`.
pub fn get_ardeck_profile<'a>(
    profiles: &'a Vec<ArdeckProfileConfigItem>,
    serial_number: &String,
) -> (r: Option<&'a ArdeckProfileConfigItem>)
    ensures
        match r {
            Some(profile) => exists|i: int|
                is_first_profile(profiles@, serial_number@, i) && *profile == profiles@[i],
            None => !has_profile(profiles@, serial_number@),
        },
{
    match find_ardeck_profile(profiles, serial_number) {
        Some(i) => Some(&profiles[i]),
        None => None,
    }
}

/// Serial number and display name of every profile, in the order of the list.
pub fn get_ardeck_profile_list(profiles: &Vec<ArdeckProfileConfigItem>) -> (r: Vec<
    (String, Option<String>),
>)
    ensures
        r@.len() == profiles@.len(),
        forall|i: int|
            0 <= i < profiles@.len() ==> #[trigger] r@[i] == (
                profiles@[i].serial_number,
                profiles@[i].device_name,
            ),
{
    let mut list: Vec<(String, Option<String>)> = Vec::new();
    let mut i: usize = 0;
    while i < profiles.len()
        invariant
            0 <= i <= profiles.len(),
            list@.len() == i,
            forall|k: int|
                0 <= k < i ==> #[trigger] list@[k] == (
                    profiles@[k].serial_number,
                    profiles@[k].device_name,
                ),
        decreases profiles.len() - i,
    {
        let name = match &profiles[i].device_name {
            Some(name) => Some(name.clone()),
            None => None,
        };
        list.push((profiles[i].serial_number.clone(), name));
        i += 1;
    }
    list
}

/// Stores `profile` in the list and returns the index at which it stands: in
/// place of the first profile with the same serial number, or at the end
/// where there is none.
pub fn save_ardeck_profile(
    profiles: &mut Vec<ArdeckProfileConfigItem>,
    profile: ArdeckProfileConfigItem,
) -> (r: usize)
    ensures
        has_profile(old(profiles)@, profile.serial_number@) ==> {
            &&& is_first_profile(old(profiles)@, profile.serial_number@, r as int)
            &&& final(profiles)@ == old(profiles)@.update(r as int, profile)
        },
        !has_profile(old(profiles)@, profile.serial_number@) ==> {
            &&& r == old(profiles)@.len()
            &&& final(profiles)@ == old(profiles)@.push(profile)
        },
{
    match find_ardeck_profile(profiles, &profile.serial_number) {
        Some(i) => {
            profiles.set(i, profile);
            i
        },
        None => {
            let index = profiles.len();
            profiles.push(profile);
            index
        },
    }
}

} // verus!
