//! Names that a person can have.

use vstd::prelude::*;
use vstd::utf8::*;

use crate::database::{Database, DbModel};
use crate::error::Error;
use crate::text::{
    chars_of, is_white_space, lemma_trimmed_fixed, lower_char, lowered, text_eq, to_lower, trim,
    trimmed,
};

verus! {

/// A lower-case letter, a digit or an underscore.
pub open spec fn username_char(c: char) -> bool {
    'a' <= c <= 'z' || '0' <= c <= '9' || c == '_'
}

/// 3 to 32 characters, each a lower-case letter, a digit or an underscore.
pub open spec fn username_shape(name: Seq<char>) -> bool {
    3 <= name.len() <= 32 && forall|i: int| 0 <= i < name.len() ==> username_char(#[trigger] name[i])
}

/// The names that nobody can have.
pub open spec fn reserved(name: Seq<char>) -> bool {
    name == "system"@ || name == "admin"@ || name == "hearth"@ || name == "support"@ || name
        == "null"@ || name == "unknown"@
}

/// The username that a text stands for.
pub open spec fn username_of(raw: Seq<char>) -> Result<Seq<char>, Error> {
    let name = lowered(trimmed(raw));
    if !username_shape(name) {
        Err(Error::UsernameShape)
    } else if reserved(name) {
        Err(Error::UsernameReserved)
    } else {
        Ok(name)
    }
}

/// The display name that a text stands for.
pub open spec fn display_name_of(raw: Seq<char>) -> Result<Seq<char>, Error> {
    let name = trimmed(raw);
    if 1 <= name.len() <= 64 {
        Ok(name)
    } else {
        Err(Error::DisplayNameLength)
    }
}

/// The outcome, with the text taken by its view.
pub open spec fn text_view(r: Result<String, Error>) -> Result<Seq<char>, Error> {
    match r {
        Ok(s) => Ok(s@),
        Err(e) => Err(e),
    }
}

fn is_reserved(name: &str) -> (b: bool)
    ensures
        b == reserved(name@),
{
    text_eq(name, "system") || text_eq(name, "admin") || text_eq(name, "hearth") || text_eq(
        name,
        "support",
    ) || text_eq(name, "null") || text_eq(name, "unknown")
}

/// The username that a text stands for, white space around it and the case of
/// its letters ignored.
pub fn normalize_username(raw: &str) -> (name: Result<String, Error>)
    ensures
        text_view(name) == username_of(raw@),
{
    let name = to_lower(trim(raw).as_str());
    let chars = chars_of(name.as_str());
    if chars.len() < 3 || chars.len() > 32 {
        return Err(Error::UsernameShape);
    }
    let mut i: usize = 0;
    while i < chars.len()
        invariant
            i <= chars.len(),
            chars@ == lowered(trimmed(raw@)),
            forall|k: int| 0 <= k < i ==> username_char(#[trigger] chars@[k]),
        decreases chars.len() - i,
    {
        let c = chars[i];
        if !(('a' <= c && c <= 'z') || ('0' <= c && c <= '9') || c == '_') {
            assert(!username_char(chars@[i as int]));
            return Err(Error::UsernameShape);
        }
        i += 1;
    }
    if is_reserved(name.as_str()) {
        return Err(Error::UsernameReserved);
    }
    Ok(name)
}

/// The display name that a text stands for, white space around it ignored.
pub fn validate_display_name(raw: &str) -> (name: Result<String, Error>)
    ensures
        text_view(name) == display_name_of(raw@),
{
    let name = trim(raw);
    let chars = chars_of(name.as_str());
    if chars.len() == 0 || chars.len() > 64 {
        return Err(Error::DisplayNameLength);
    }
    Ok(name)
}

/// What making a profile does.
pub open spec fn profile_created(
    before: DbModel,
    after: DbModel,
    username: Seq<char>,
    display_name: Seq<char>,
    now_ms: i64,
    r: Result<(), Error>,
) -> bool {
    match (username_of(username), display_name_of(display_name)) {
        (Ok(u), Ok(d)) => r is Ok && after == before.save_profile(u, d, now_ms),
        (Err(e), _) => r == Err::<(), Error>(e) && after == before,
        (Ok(_), Err(e)) => r == Err::<(), Error>(e) && after == before,
    }
}

/// Stores the profile of this device's user, if both names are acceptable.
pub fn create_profile(database: &mut Database, username: &str, display_name: &str, now_ms: i64) -> (r:
    Result<(), Error>)
    ensures
        profile_created(
            old(database)@,
            final(database)@,
            username@,
            display_name@,
            now_ms,
            r,
        ),

{
    let name = match normalize_username(username) {
        Ok(n) => n,
        Err(e) => {
            return Err(e);
        },
    };
    let display = match validate_display_name(display_name) {
        Ok(d) => d,
        Err(e) => {
            return Err(e);
        },
    };
    database.save_profile(name.as_str(), display.as_str(), now_ms);
    Ok(())
}

/// A normalized username is its own normal form.
pub proof fn law_username_normal_form(raw: Seq<char>)
    requires
        username_of(raw) is Ok,
    ensures
        username_of(username_of(raw)->Ok_0) == username_of(raw),
{
    let name = username_of(raw)->Ok_0;
    assert(username_char(name[0]));
    assert(username_char(name.last()));
    assert(!is_white_space(name[0]));
    assert(!is_white_space(name.last()));
    lemma_trimmed_fixed(name);
    assert(lowered(name) =~= name) by {
        assert forall|i: int| 0 <= i < name.len() implies lower_char(#[trigger] name[i])
            == name[i] by {
            assert(username_char(name[i]));
        }
    }
}

} // verus!
