use vstd::prelude::*;
use vstd::string::*;
use rand::Rng;
use crate::text::{spec_dec, str_eq, u64_to_dec};

verus! {

#[verifier::external_type_specification]
#[verifier::external_body]
pub struct ExThreadRng(rand::rngs::ThreadRng);

/// Relies on rand's `thread_rng`: a handle to the thread-local random
/// number generator.
#[verifier::external_body]
fn new_thread_rng() -> rand::rngs::ThreadRng {
    rand::thread_rng()
}

/// Relies on rand's `Rng::gen_range` over the half-open range `0..999999`:
/// the range is not empty, so the call returns, and the draw lies strictly
/// below the bound. Nothing is promised about which value comes back.
#[verifier::external_body]
fn draw_clip_number(rng: &mut rand::rngs::ThreadRng) -> (r: u64)
    ensures
        r < 999999,
{
    rng.gen_range(0..999999u64)
}

/// One cookie of a request, as the boundary hands it in: a name and a
/// value.
#[derive(Debug, Clone)]
pub struct Cookie {
    pub name: String,
    pub value: String,
}

/// The value of the first cookie with this name, or the empty string when
/// no cookie has it.
pub open spec fn spec_cookie_value(cookies: Seq<Cookie>, key: Seq<char>) -> Seq<char>
    decreases cookies.len(),
{
    if cookies.len() == 0 {
        Seq::empty()
    } else if cookies.first().name@ == key {
        cookies.first().value@
    } else {
        spec_cookie_value(cookies.drop_first(), key)
    }
}

/// Backend helpers: random clip ids and cookie lookup.
pub struct Utilities {}

impl Utilities {
    /// A fresh id: the prefix followed by a random number below 999999.
    /// Ids are likely, not guaranteed, to be unique within a session.
    pub fn rnd_id(prefix: &str) -> (r: String)
        ensures
            exists|n: nat| n < 999999 && r@ == prefix@ + spec_dec(n),
    {
        let mut rng = new_thread_rng();
        let n = draw_clip_number(&mut rng);
        let r = Self::rnd_id_from(prefix, n);
        proof {
            assert((n as nat) < 999999 && r@ == prefix@ + spec_dec(n as nat));
        }
        r
    }

    /// The id built from one drawn number: the prefix followed by the
    /// number in decimal.
    pub fn rnd_id_from(prefix: &str, n: u64) -> (r: String)
        ensures
            r@ == prefix@ + spec_dec(n as nat),
    {
        let mut s = prefix.to_owned();
        let d = u64_to_dec(n);
        s.append(d.as_str());
        s
    }

    /// The value of the first cookie named `key`, or the empty string when
    /// no cookie has that name.
    pub fn get_cookie_value(cookies: &Vec<Cookie>, key: &str) -> (r: String)
        ensures
            r@ == spec_cookie_value(cookies@, key@),
    {
        let n = cookies.len();
        let mut i: usize = 0;
        proof {
            assert(cookies@.skip(0) =~= cookies@);
        }
        while i < n
            invariant
                n == cookies@.len(),
                i <= n,
                spec_cookie_value(cookies@, key@) == spec_cookie_value(
                    cookies@.skip(i as int),
                    key@,
                ),
            decreases n - i,
        {
            if str_eq(cookies[i].name.as_str(), key) {
                proof {
                    assert(cookies@.skip(i as int).first() == cookies@[i as int]);
                }
                return cookies[i].value.clone();
            }
            proof {
                assert(cookies@.skip(i as int).first() == cookies@[i as int]);
                assert(cookies@.skip(i as int).drop_first() =~= cookies@.skip(i + 1 as int));
            }
            i = i + 1;
        }
        String::new()
    }
}

} // verus!
