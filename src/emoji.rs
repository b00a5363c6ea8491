use vstd::prelude::*;

verus! {

/// The emoji, as UTF-8 bytes, that the GitHub shortcode spelled by `name` stands for,
/// if it stands for one.
pub uninterp spec fn emoji_for(name: Seq<u8>) -> Option<Seq<u8>>;

/// Relies on `emojis::get_by_shortcode`: the emoji that a shortcode names, or none.
/// Bytes that are not UTF-8 spell no shortcode.
#[verifier::external_body]
pub(crate) fn lookup_emoji(name: &Vec<u8>) -> (r: Option<Vec<u8>>)
    ensures
        match r {
            Some(e) => emoji_for(name@) == Some(e@),
            None => emoji_for(name@) is None,
        },
{
    match std::str::from_utf8(name) {
        Ok(s) => emojis::get_by_shortcode(s).map(|e| e.as_str().as_bytes().to_vec()),
        Err(_) => None,
    }
}

} // verus!
