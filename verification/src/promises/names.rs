//! Texts and names: what trimming leaves, which names are accepted.

use vstd::prelude::*;

use crate::error::Error;
use crate::messaging::message_text;
use crate::text::{lowered, prefix, trimmed, trimmed_end, trimmed_start};
use crate::validation::{display_name_of, username_of};

verus! {

/// The characters that Unicode counts as white space.
pub open spec fn blank(c: char) -> bool {
    c == ' ' || c == '\t' || c == '\n' || c == '\r' || c == '\u{b}' || c == '\u{c}' || c == '\u{85}'
        || c == '\u{a0}' || c == '\u{1680}' || ('\u{2000}' <= c && c <= '\u{200a}') || c
        == '\u{2028}' || c == '\u{2029}' || c == '\u{202f}' || c == '\u{205f}' || c == '\u{3000}'
}

/// A text is another between these places, and what is left out around it is blank.
pub open spec fn blanks_around(whole: Seq<char>, part: Seq<char>, from: int, to: int) -> bool {
    &&& 0 <= from <= to <= whole.len()
    &&& part == whole.subrange(from, to)
    &&& forall|i: int| 0 <= i < from ==> blank(#[trigger] whole[i])
    &&& forall|i: int| to <= i < whole.len() ==> blank(#[trigger] whole[i])
}

proof fn lemma_trimmed_start(s: Seq<char>) -> (from: int)
    ensures
        blanks_around(s, trimmed_start(s), from, s.len() as int),
        trimmed_start(s).len() > 0 ==> !blank(trimmed_start(s)[0]),
    decreases s.len(),
{
    if s.len() > 0 && crate::text::is_white_space(s[0]) {
        let rest = s.drop_first();
        let from: int = lemma_trimmed_start(rest);
        assert(s.subrange(from + 1, s.len() as int) =~= rest.subrange(from, rest.len() as int));
        assert forall|i: int| 0 <= i < from + 1 implies blank(#[trigger] s[i]) by {
            if i > 0 {
                assert(rest[i - 1] == s[i]);
            }
        }
        from + 1
    } else {
        assert(s.subrange(0, s.len() as int) =~= s);
        0
    }
}

proof fn lemma_trimmed_end(s: Seq<char>) -> (to: int)
    ensures
        blanks_around(s, trimmed_end(s), 0, to),
        trimmed_end(s).len() > 0 ==> !blank(trimmed_end(s).last()),
    decreases s.len(),
{
    if s.len() > 0 && crate::text::is_white_space(s.last()) {
        let rest = s.drop_last();
        let to: int = lemma_trimmed_end(rest);
        assert(s.subrange(0, to) =~= rest.subrange(0, to));
        assert forall|i: int| to <= i < s.len() implies blank(#[trigger] s[i]) by {
            if i < rest.len() {
                assert(rest[i] == s[i]);
            }
        }
        to
    } else {
        assert(s.subrange(0, s.len() as int) =~= s);
        s.len() as int
    }
}

/// Trimming takes the blanks at both ends, and nothing else.
pub proof fn law_trimming_takes_blanks(s: Seq<char>)
    ensures
        exists|from: int, to: int| #[trigger] blanks_around(s, trimmed(s), from, to),
        trimmed(s).len() > 0 ==> !blank(trimmed(s)[0]) && !blank(trimmed(s).last()),
{
    let start = trimmed_start(s);
    let from: int = lemma_trimmed_start(s);
    let to: int = lemma_trimmed_end(start);
    assert(start == s.subrange(from, s.len() as int));
    assert(s.subrange(from, from + to) =~= start.subrange(0, to));
    assert forall|i: int| from + to <= i < s.len() implies blank(#[trigger] s[i]) by {
        assert(start[i - from] == s[i]);
    }
    assert(blanks_around(s, trimmed(s), from, from + to));
    if trimmed(s).len() > 0 {
        assert(trimmed(s)[0] == start[0]);
    }
}

/// Lowering changes the capital ASCII letters, one for one, and nothing else.
pub proof fn law_lowering_changes_capitals(s: Seq<char>)
    ensures
        lowered(s).len() == s.len(),
        forall|i: int|
            0 <= i < s.len() ==> if 'A' <= s[i] <= 'Z' {
                (#[trigger] lowered(s)[i]) as u32 == s[i] as u32 + 32
            } else {
                lowered(s)[i] == s[i]
            },
{
}

/// The beginning of a text is as long as asked for, or all of it.
pub proof fn law_beginnings_begin(s: Seq<char>, n: nat)
    ensures
        prefix(s, n).len() == if n < s.len() {
            n
        } else {
            s.len()
        },
        forall|i: int| 0 <= i < prefix(s, n).len() ==> #[trigger] prefix(s, n)[i] == s[i],
{
}

/// A message has 1 to 2000 characters around which blanks were taken; nothing else is
/// refused.
pub proof fn law_message_texts(raw: Seq<char>)
    ensures
        message_text(raw) == if 1 <= trimmed(raw).len() <= 2000 {
            Ok::<Seq<char>, Error>(trimmed(raw))
        } else {
            Err(Error::MessageLength)
        },
{
}

/// A display name has 1 to 64 characters around which blanks were taken.
pub proof fn law_display_names(raw: Seq<char>)
    ensures
        display_name_of(raw) == if 1 <= trimmed(raw).len() <= 64 {
            Ok::<Seq<char>, Error>(trimmed(raw))
        } else {
            Err(Error::DisplayNameLength)
        },
{
}

/// A username has 3 to 32 lower-case letters, digits and underscores, once it is trimmed and
/// in lower case; six of these are taken.
pub proof fn law_usernames(raw: Seq<char>)
    ensures
        ({
            let name = lowered(trimmed(raw));
            let shaped = 3 <= name.len() <= 32 && forall|i: int|
                0 <= i < name.len() ==> ('a' <= #[trigger] name[i] <= 'z') || ('0' <= name[i]
                    <= '9') || name[i] == '_';
            let taken = name == "system"@ || name == "admin"@ || name == "hearth"@ || name
                == "support"@ || name == "null"@ || name == "unknown"@;
            &&& username_of(raw) is Ok <==> shaped && !taken
            &&& username_of(raw) is Ok ==> username_of(raw)->Ok_0 == name
            &&& !shaped ==> username_of(raw) == Err::<Seq<char>, Error>(Error::UsernameShape)
            &&& shaped && taken ==> username_of(raw) == Err::<Seq<char>, Error>(
                Error::UsernameReserved,
            )
        }),
{
    let name = lowered(trimmed(raw));
    let shaped = 3 <= name.len() <= 32 && forall|i: int|
        0 <= i < name.len() ==> ('a' <= #[trigger] name[i] <= 'z') || ('0' <= name[i] <= '9')
            || name[i] == '_';
    if crate::validation::username_shape(name) {
        assert forall|i: int| 0 <= i < name.len() implies ('a' <= #[trigger] name[i] <= 'z') || (
        '0' <= name[i] <= '9') || name[i] == '_' by {
            assert(crate::validation::username_char(name[i]));
        }
    }
    if shaped {
        assert(crate::validation::username_shape(name));
    }
}

/// Names are ordered as in a dictionary: by the first place where they differ, and where they
/// do not, the shorter one first.
pub proof fn law_names_in_dictionary_order(a: Seq<char>, b: Seq<char>, k: int)
    requires
        0 <= k <= a.len(),
        k <= b.len(),
        forall|i: int| 0 <= i < k ==> a[i] == b[i],
        k < a.len() && k < b.len() ==> a[k] != b[k],
    ensures
        k == a.len() ==> crate::text::text_le(a, b),
        k < a.len() && k == b.len() ==> !crate::text::text_le(a, b),
        k < a.len() && k < b.len() ==> (crate::text::text_le(a, b) <==> a[k] < b[k]),
    decreases k,
{
    if k > 0 {
        law_names_in_dictionary_order(a.drop_first(), b.drop_first(), k - 1);
    }
}

} // verus!
