//! What the processor and server settings share: reading a host name typed in any case, and
//! the buffer size a setting stands for.

use vstd::prelude::*;

verus! {

/// The text a string becomes under `str::to_lowercase`: Unicode's lowercase mapping of every
/// character, which can change the length of the text.
pub uninterp spec fn lowercase(text: Seq<char>) -> Seq<char>;

/// `str::to_lowercase`. Its result is named rather than spelt out: it is Unicode's full
/// lowercase mapping, which depends on the text alone.
#[verifier::external_body]
pub(crate) fn to_lowercase(text: &str) -> (lower: String)
    ensures
        lower@ == lowercase(text@),
{
    text.to_lowercase()
}

/// The message an unknown host name is refused with.
pub open spec fn unsupported_host_message(name: Seq<char>) -> Seq<char> {
    "Unsupported host: "@ + name
}

/// The message an unknown host name is refused with.
pub fn unsupported_host(name: &str) -> (message: String)
    ensures
        message@ == unsupported_host_message(name@),
{
    let mut message = String::from_str("Unsupported host: ");
    message.append(name);
    message
}

/// Two to the power of `exponent`: the buffer size a setting of `exponent` stands for.
pub open spec fn power_of_two(exponent: nat) -> nat
    decreases exponent,
{
    if exponent == 0 {
        1
    } else {
        2 * power_of_two((exponent - 1) as nat)
    }
}

/// The buffer size in samples of a buffer size setting, which holds the power of two.
pub fn buffer_size_samples(buffer_size: usize) -> (samples: usize)
    requires
        power_of_two(buffer_size as nat) <= usize::MAX,
    ensures
        samples == power_of_two(buffer_size as nat),
{
    let mut samples: usize = 1;
    let mut i: usize = 0;
    while i < buffer_size
        invariant
            i <= buffer_size,
            samples == power_of_two(i as nat),
            power_of_two(buffer_size as nat) <= usize::MAX,
        decreases buffer_size - i,
    {
        proof {
            lemma_power_of_two_grows(i as nat + 1, buffer_size as nat);
        }
        samples = samples * 2;
        i = i + 1;
    }
    samples
}

/// Higher powers of two are larger.
pub proof fn lemma_power_of_two_grows(a: nat, b: nat)
    requires
        a <= b,
    ensures
        power_of_two(a) <= power_of_two(b),
    decreases b,
{
    if a < b {
        lemma_power_of_two_grows(a, (b - 1) as nat);
    }
}

} // verus!
