//! The temporary Wi-Fi network that a file travels over.

use crate::error::AirError;
use crate::text::{format_digits, join, lemma_padded_digits_len, padded_digits, same_text};
use vstd::arithmetic::power::pow;
use vstd::prelude::*;

verus! {

/// What the name of every temporary network begins with.
pub const SSID_PREFIX: &'static str = "AirCore-";

/// The number that name and password of a network are made of: the clock, with the process
/// number in its upper half. It can be guessed by whoever knows when it was made.
pub open spec fn credential_seed(nanos: u128, pid: u32) -> u64 {
    ((nanos % 0x1_0000_0000_0000_0000) as u64) ^ ((pid as u64) << 32)
}

/// The name of the network: six hexadecimal digits of the seed behind [`SSID_PREFIX`].
pub open spec fn ssid_of(seed: u64) -> Seq<char> {
    SSID_PREFIX@ + padded_digits(seed as nat % 0x100_0000, 16, 6)
}

/// The password of the network: the seed in sixteen hexadecimal digits.
pub open spec fn password_of(seed: u64) -> Seq<char> {
    padded_digits(seed as nat, 16, 16)
}

/// Makes name and password for a network, from the time since the epoch and the number of the
/// process.
pub fn generate_hotspot_credentials(nanos: u128, pid: u32) -> (r: (String, String))
    ensures
        r.0@ == ssid_of(credential_seed(nanos, pid)),
        r.1@ == password_of(credential_seed(nanos, pid)),
{
    let seed: u64 = ((nanos % 0x1_0000_0000_0000_0000) as u64) ^ ((pid as u64) << 32);
    let tail = format_digits(seed % 0x100_0000, 16, 6);
    (join(SSID_PREFIX, tail.as_str()), format_digits(seed, 16, 16))
}

/// Every network has a name of fourteen and a password of sixteen characters, which Wi-Fi allows:
/// at most 32 for a name, 8 to 63 for a password.
pub proof fn law_credentials_fit(seed: u64)
    ensures
        ssid_of(seed).len() == 14,
        password_of(seed).len() == 16,
{
    reveal_strlit("AirCore-");
    assert(pow(16, 6) == 0x100_0000 && pow(16, 16) == 0x1_0000_0000_0000_0000) by {
        reveal_with_fuel(pow, 17);
    }
    lemma_padded_digits_len(seed as nat % 0x100_0000, 16, 6);
    lemma_padded_digits_len(seed as nat, 16, 16);
}

/// Whether the network at position `i` is known to be called `ssid`.
pub open spec fn is_network(names: Seq<Option<String>>, i: int, ssid: Seq<char>) -> bool {
    names[i] matches Some(name) && name@ == ssid
}

/// Whether none of the networks is known to be called `ssid`.
pub open spec fn no_network(names: Seq<Option<String>>, ssid: Seq<char>) -> bool {
    forall|j: int| 0 <= j < names.len() ==> !#[trigger] is_network(names, j, ssid)
}

/// The position of the first network called `ssid` among those in range. A network whose name
/// could not be read is passed over.
pub fn find_network(names: &Vec<Option<String>>, ssid: &str) -> (r: Result<usize, AirError>)
    ensures
        match r {
            Ok(i) => i < names@.len() && is_network(names@, i as int, ssid@) && forall|j: int|
                0 <= j < i ==> !is_network(names@, j, ssid@),
            Err(e) => (e matches AirError::NetworkNotFound { ssid: s } && s@ == ssid@) && forall|
                j: int,
            |
                0 <= j < names@.len() ==> !is_network(names@, j, ssid@),
        },
        r is Err ==> no_network(names@, ssid@),
{
    let mut i: usize = 0;
    while i < names.len()
        invariant
            i <= names@.len(),
            forall|j: int| 0 <= j < i ==> !is_network(names@, j, ssid@),
        decreases names@.len() - i,
    {
        if let Some(name) = &names[i] {
            if same_text(name.as_str(), ssid) {
                return Ok(i);
            }
        }
        i += 1;
    }
    Err(AirError::NetworkNotFound { ssid: ssid.to_owned() })
}

} // verus!
