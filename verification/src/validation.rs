//! Validation of listing bodies at creation, and small input checks.

use vstd::prelude::*;
use vstd::string::StrSliceExecFns;

use crate::errors::FardelError;

verus! {

/// Bounds enforced on a listing body at creation.
#[derive(Clone, Copy, Debug, PartialEq, Eq, Structural)]
pub struct Limits {
    /// Maximum price of a listing.
    pub max_cost: u128,
    pub max_public_message_len: u16,
    pub max_tag_len: u8,
    pub max_number_of_tags: u8,
    pub max_fardel_img_size: u32,
    pub max_contents_data_len: u16,
}

/// The default creation bounds.
pub fn default_limits() -> (r: Limits)
    ensures
        r == (Limits {
            max_cost: 5000000,
            max_public_message_len: 280,
            max_tag_len: 255,
            max_number_of_tags: 20,
            max_fardel_img_size: 65536,
            max_contents_data_len: 1024,
        }),
{
    Limits {
        max_cost: 5000000,
        max_public_message_len: 280,
        max_tag_len: 255,
        max_number_of_tags: 20,
        max_fardel_img_size: 65536,
        max_contents_data_len: 1024,
    }
}

/// Whether a listing body respects the creation bounds: message, tag count,
/// each tag, payload and price all within their limits.
pub open spec fn spec_fardel_data_valid(
    limits: Limits,
    public_message: Seq<u8>,
    tags: Seq<Vec<u8>>,
    contents_data: Seq<u8>,
    cost: u128,
    img_len: int,
) -> bool {
    &&& public_message.len() <= limits.max_public_message_len
    &&& tags.len() <= limits.max_number_of_tags
    &&& (forall|i: int| 0 <= i < tags.len() ==> (#[trigger] tags[i])@.len() <= limits.max_tag_len)
    &&& contents_data.len() <= limits.max_contents_data_len
    &&& cost <= limits.max_cost
    &&& img_len <= limits.max_fardel_img_size
}

/// Checks a listing body against the creation bounds.
pub fn check_fardel_data(
    limits: &Limits,
    public_message: &Vec<u8>,
    tags: &Vec<Vec<u8>>,
    contents_data: &Vec<u8>,
    cost: u128,
    img: &Option<Vec<u8>>,
) -> (r: bool)
    ensures
        r == spec_fardel_data_valid(
            *limits,
            public_message@,
            tags@,
            contents_data@,
            cost,
            match img {
                Some(v) => v@.len() as int,
                None => 0,
            },
        ),
{
    let mut tags_ok = true;
    let mut i: usize = 0;
    while i < tags.len()
        invariant
            i <= tags.len(),
            tags_ok == (forall|j: int|
                0 <= j < i ==> (#[trigger] tags@[j])@.len() <= limits.max_tag_len),
        decreases tags.len() - i,
    {
        if tags[i].len() > limits.max_tag_len as usize {
            tags_ok = false;
        }
        i += 1;
    }
    let img_ok = match img {
        Some(v) => v.len() <= limits.max_fardel_img_size as usize,
        None => true,
    };
    tags_ok && img_ok && public_message.len() <= limits.max_public_message_len as usize
        && tags.len() <= limits.max_number_of_tags as usize && contents_data.len()
        <= limits.max_contents_data_len as usize && cost <= limits.max_cost
}

/// Converts a configured seal deadline.  `None` means no deadline (0); a
/// negative value is refused.
pub fn valid_seal_time(val: Option<i32>) -> (r: Result<u64, FardelError>)
    ensures
        match r {
            Ok(t) => match val {
                Some(v) => v >= 0 && t == v,
                None => t == 0,
            },
            Err(e) => e == FardelError::InvalidInput && val is Some && val->Some_0 < 0,
        },
{
    match val {
        Some(v) => {
            if v < 0 {
                Err(FardelError::InvalidInput)
            } else {
                Ok(v as u64)
            }
        },
        None => Ok(0),
    }
}

/// What `char::is_whitespace` returns for a character: a property of the
/// character alone.
pub uninterp spec fn whitespace_char(c: char) -> bool;

/// Relies on `char::is_whitespace`: a pure character-class test.
#[verifier::external_body]
fn is_whitespace_char(c: char) -> (r: bool)
    ensures
        r == whitespace_char(c),
{
    c.is_whitespace()
}

/// Whether the string holds any whitespace character.
pub fn has_whitespace(s: &String) -> (r: bool)
    ensures
        r == exists|i: int| 0 <= i < s@.len() && whitespace_char(s@[i]),
{
    let st = s.as_str();
    let n = st.unicode_len();
    let mut i: usize = 0;
    while i < n
        invariant
            st@ == s@,
            n == s@.len(),
            i <= n,
            forall|j: int| 0 <= j < i ==> !whitespace_char(s@[j]),
        decreases n - i,
    {
        if is_whitespace_char(st.get_char(i)) {
            return true;
        }
        i += 1;
    }
    false
}

} // verus!
