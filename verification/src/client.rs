use vstd::prelude::*;
use vstd::string::*;
use crate::text::str_eq;

verus! {

/// Client-side helpers: static configuration lookup, and string leaking
/// for widget labels that need a static lifetime.
pub struct Utilities;

impl Utilities {
    /// Configuration by key: the connection endpoint for `ws_url`, and a
    /// fixed marker value for every unknown key.
    pub fn config(key: &str) -> (r: String)
        ensures
            key@ == "ws_url"@ ==> r@ == "ws://127.0.0.1:9011/ws/"@,
            key@ != "ws_url"@ ==> r@ == "InvalidConfigKey"@,
    {
        if str_eq(key, "ws_url") {
            "ws://127.0.0.1:9011/ws/".to_owned()
        } else {
            "InvalidConfigKey".to_owned()
        }
    }

    /// Relies on std's `String::leak`: the returned slice holds exactly
    /// the string's characters, for the rest of the program's life.
    #[verifier::external_body]
    pub fn string_to_static_str(s: String) -> (r: &'static str)
        ensures
            r@ == s@,
    {
        s.leak()
    }
}

} // verus!
