use crate::text::{
    alphanumeric, byte_prefix, is_alphanumeric, is_whitespace, lemma_utf8_len_grows, utf8_len,
    whitespace,
};
use vstd::prelude::*;
use vstd::string::StrSliceExecFns;

verus! {

/// A character that may stand anywhere in the local part of an address.
pub open spec fn local_char(c: char) -> bool {
    alphanumeric(c) || c == '!' || c == '#' || c == '$' || c == '%' || c == '&' || c == '*' || c
        == '+' || c == '-' || c == '/' || c == '=' || c == '?' || c == '^' || c == '_' || c == '`'
        || c == '{' || c == '|' || c == '}' || c == '~'
}

/// The character at `i` is allowed in a local part: it is a local character,
/// or a dot that directly follows one.
pub open spec fn local_at(text: Seq<char>, i: int) -> bool {
    local_char(text[i]) || (text[i] == '.' && i > 0 && local_char(text[i - 1]))
}

/// `text` splits into a local part, an `@` at position `at`, and a domain,
/// and the first `at` bytes of `text` are its first `len` characters, which
/// form the login.
///
/// The local part is made of local characters and single dots after them.
/// No character of `text` is whitespace and the domain holds no `@`. The
/// login is not empty and does not end in a dot.
pub open spec fn login_split(text: Seq<char>, at: int, len: int) -> bool {
    &&& 0 <= at < text.len()
    &&& forall|i: int| 0 <= i < text.len() ==> !whitespace(#[trigger] text[i])
    &&& forall|i: int| 0 <= i < at ==> #[trigger] local_at(text, i)
    &&& !local_char(text[at]) && text[at] == '@'
    &&& forall|i: int| at < i < text.len() ==> #[trigger] text[i] != '@'
    &&& 0 < len <= at
    &&& utf8_len(text.subrange(0, len)) == at
    &&& text[len - 1] != '.'
}

/// `text` has the shape of an address with a login.
pub open spec fn has_login(text: Seq<char>) -> bool {
    exists|at: int, len: int| login_split(text, at, len)
}

/// The way in which an address splits: the position of its `@` and the
/// length of its login.
pub open spec fn the_split(text: Seq<char>) -> (int, int) {
    choose|at: int, len: int| login_split(text, at, len)
}

/// The position of the `@` of an address.
pub open spec fn at_position(text: Seq<char>) -> int {
    the_split(text).0
}

/// The login of an address: what stands before the `@`.
pub open spec fn login_of(text: Seq<char>) -> Seq<char> {
    text.subrange(0, the_split(text).1)
}

/// The domain of an address: what stands after the `@`.
pub open spec fn domain_of(text: Seq<char>) -> Seq<char> {
    text.subrange(at_position(text) + 1, text.len() as int)
}

/// A text splits in at most one way.
pub proof fn lemma_login_split_unique(text: Seq<char>, at: int, len: int, at2: int, len2: int)
    requires
        login_split(text, at, len),
        login_split(text, at2, len2),
    ensures
        at == at2,
        len == len2,
{
    if at < at2 {
        assert(local_at(text, at));
    }
    if at2 < at {
        assert(local_at(text, at2));
    }
    if len < len2 {
        lemma_utf8_len_grows(text, len, len2);
    }
    if len2 < len {
        lemma_utf8_len_grows(text, len2, len);
    }
}

/// Where a text splits, the split is the one that `at_position` and
/// `login_of` speak of.
pub proof fn lemma_login_split_is(text: Seq<char>, at: int, len: int)
    requires
        login_split(text, at, len),
    ensures
        has_login(text),
        at_position(text) == at,
        login_of(text) == text.subrange(0, len),
{
    let (at2, len2) = the_split(text);
    lemma_login_split_unique(text, at, len, at2, len2);
}

pub fn is_valid_email_local_part_char(c: char) -> (b: bool)
    ensures
        b == local_char(c),
{
    if is_alphanumeric(c) {
        return true;
    }
    match c {
        '!' | '#' | '$' | '%' | '&' | '*' | '+' | '-' | '/' | '=' | '?' | '^' | '_' | '`' | '{' | '|' | '}' | '~' => true,
        _ => false,
    }
}

/// Splits an address: the login and the position of the `@`, counted in
/// characters.
pub fn split_login(input: &str) -> (r: Option<(&str, usize)>)
    ensures
        match r {
            Some((login, at)) => has_login(input@) && login@ == login_of(input@) && at
                == at_position(input@) && at < input@.len() && at < usize::MAX,
            None => !has_login(input@),
        },
{
    let n = input.unicode_len();
    let mut i: usize = 0;
    let mut after_local = false;
    let mut found = false;
    while i < n && !found
        invariant
            n == input@.len(),
            i <= n,
            forall|t: int| 0 <= t < i ==> !whitespace(#[trigger] input@[t]),
            forall|t: int| 0 <= t < i ==> #[trigger] local_at(input@, t),
            after_local == (i > 0 && local_char(input@[i - 1])),
            found ==> i < n && !local_char(input@[i as int]) && input@[i as int] == '@'
                && !whitespace(input@[i as int]),
        decreases n - i + (if found { 0int } else { 1int }),
    {
        let c = input.get_char(i);
        if is_whitespace(c) {
            assert forall|at: int, len: int| !login_split(input@, at, len) by {
                assert(whitespace(input@[i as int]));
            }
            return None;
        }
        if is_valid_email_local_part_char(c) {
            after_local = true;
            i = i + 1;
        } else if after_local && c == '.' {
            after_local = false;
            i = i + 1;
        } else if c == '@' {
            found = true;
        } else {
            assert forall|at: int, len: int| !login_split(input@, at, len) by {
                if login_split(input@, at, len) {
                    if at > i {
                        assert(local_at(input@, i as int));
                    } else if at < i {
                        assert(local_at(input@, at));
                    }
                }
            }
            return None;
        }
    }
    if !found {
        assert forall|at: int, len: int| !login_split(input@, at, len) by {
            if login_split(input@, at, len) {
                assert(local_at(input@, at));
            }
        }
        return None;
    }
    let at = i;
    proof {
        assert forall|at2: int, len: int| login_split(input@, at2, len) implies at2 == at by {
            if at2 > at {
                assert(local_at(input@, at as int));
            } else if at2 < at {
                assert(local_at(input@, at2));
            }
        }
    }
    let login = match byte_prefix(input, at) {
        Some(login) => login,
        None => {
            return None;
        },
    };
    let len = login.unicode_len();
    if len == 0 {
        assert(utf8_len(login@) == 0);
        assert forall|at2: int, len2: int| !login_split(input@, at2, len2) by {
            if login_split(input@, at2, len2) {
                lemma_utf8_len_grows(input@, 0, len2);
                assert(input@.subrange(0, 0) =~= login@);
            }
        }
        return None;
    }
    proof {
        lemma_utf8_len_grows(input@, 0, len as int);
        assert(utf8_len(input@.subrange(0, 0)) == 0);
        assert forall|at2: int, len2: int| login_split(input@, at2, len2) implies len2 == len by {
            if len2 < len {
                lemma_utf8_len_grows(input@, len2, len as int);
            }
            if len < len2 {
                lemma_utf8_len_grows(input@, len as int, len2);
            }
        }
    }
    if login.get_char(len - 1) == '.' {
        return None;
    }
    let mut j: usize = at + 1;
    while j < n
        invariant
            n == input@.len(),
            at < j <= n,
            forall|t: int| 0 <= t < j ==> !whitespace(#[trigger] input@[t]),
            forall|t: int| at < t < j ==> #[trigger] input@[t] != '@',
            forall|at2: int, len2: int| login_split(input@, at2, len2) ==> at2 == at,
        decreases n - j,
    {
        let c = input.get_char(j);
        if is_whitespace(c) {
            assert forall|at2: int, len2: int| !login_split(input@, at2, len2) by {
                assert(whitespace(input@[j as int]));
            }
            return None;
        }
        if c == '@' {
            assert forall|at2: int, len2: int| !login_split(input@, at2, len2) by {
                if login_split(input@, at2, len2) {
                    assert(input@[j as int] == '@');
                }
            }
            return None;
        }
        j = j + 1;
    }
    proof {
        assert(login_split(input@, at as int, len as int));
        lemma_login_split_is(input@, at as int, len as int);
    }
    Some((login, at))
}

/// The login of an address, where the text has the shape of one.
pub fn extract_login(input: &str) -> (r: Option<&str>)
    ensures
        match r {
            Some(login) => has_login(input@) && login@ == login_of(input@),
            None => !has_login(input@),
        },
{
    match split_login(input) {
        Some((login, _)) => Some(login),
        None => None,
    }
}

} // verus!
