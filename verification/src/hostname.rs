//! The name of the host, in storage of fixed size.

use vstd::prelude::*;
use vstd::utf8::encode_utf8;

verus! {

/// The longest host name, in bytes. The DNS label limit (RFC 1035 §2.3.4).
pub const HOSTNAME_MAX_LEN: usize = 63;

/// The string of fixed capacity of the crate `heapless`.
#[verifier::external_type_specification]
#[verifier::external_body]
pub struct ExString<const N: usize>(heapless::String<N>);

/// The characters that a `heapless::String` holds.
pub uninterp spec fn characters(s: heapless::String<63>) -> Seq<char>;

/// Calls `heapless::String::new`, which makes a string that holds nothing.
#[verifier::external_body]
fn new_string() -> (s: heapless::String<63>)
    ensures
        characters(s) == Seq::<char>::empty(),
{
    heapless::String::new()
}

/// Calls `heapless::String::clear`, after which the string holds nothing.
#[verifier::external_body]
fn clear_string(s: &mut heapless::String<63>)
    ensures
        characters(*final(s)) == Seq::<char>::empty(),
{
    s.clear()
}

/// Calls `heapless::String::push_str`, which appends the characters of `text` if their bytes
/// fit in the capacity beside those that the string holds, and else returns an error and
/// leaves the string as it is.
#[verifier::external_body]
fn push_string(s: &mut heapless::String<63>, text: &str) -> (result: core::result::Result<(), ()>)
    ensures
        result is Ok <==> encode_utf8(characters(*old(s))).len() + encode_utf8(text@).len() <= 63,
        result is Ok ==> characters(*final(s)) == characters(*old(s)) + text@,
        result is Err ==> characters(*final(s)) == characters(*old(s)),
{
    s.push_str(text)
}

/// Calls `heapless::String::as_str`, which gives the characters that the string holds.
#[verifier::external_body]
fn string_as_str(s: &heapless::String<63>) -> (text: &str)
    ensures
        text@ == characters(*s),
{
    s.as_str()
}

/// The name of a host. Empty when unset.
pub struct Hostname {
    name: heapless::String<63>,
}

impl View for Hostname {
    type V = Seq<char>;

    closed spec fn view(&self) -> Seq<char> {
        characters(self.name)
    }
}

impl Hostname {
    /// A host without a name.
    pub fn new() -> (hostname: Hostname)
        ensures
            hostname@ == Seq::<char>::empty(),
    {
        Hostname { name: new_string() }
    }

    /// The name, or `None` if it is not set.
    pub fn get(&self) -> (name: Option<&str>)
        ensures
            name is Some <==> self@.len() > 0,
            name matches Some(text) ==> text@ == self@,
    {
        let text: &str = string_as_str(&self.name);
        if text.is_empty() {
            None
        } else {
            Some(text)
        }
    }

    /// Set the name, of at most 63 bytes. An empty string clears it.
    pub fn set(&mut self, text: &str)
        requires
            encode_utf8(text@).len() <= HOSTNAME_MAX_LEN,
        ensures
            final(self)@ == text@,
    {
        clear_string(&mut self.name);
        proof {
            assert(encode_utf8(Seq::<char>::empty()).len() == 0);
        }
        let _pushed = push_string(&mut self.name, text);
        assert(Seq::<char>::empty() + text@ =~= text@);
    }
}

} // verus!
