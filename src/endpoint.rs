//! Endpoint identifiers: an account's e-mail address, optionally followed by
//! `;` and the GUID of one of its signed-in endpoints in braces.

use crate::text::{
    chars_of, lemma_split_first_absent, lemma_split_first_at, push_char, push_str, split_first,
    split_once,
};
use vstd::prelude::*;

verus! {

/// Length of a GUID's text: 32 hex digits in groups of 8-4-4-4-12.
pub const GUID_TEXT_LEN: usize = 36;

/// Why a text is no endpoint identifier.
#[derive(Clone, Copy, Debug, PartialEq, Eq, Structural)]
pub enum EndpointIdError {
    /// What follows the `;` is no GUID.
    InvalidGuid,
}

pub open spec fn is_hex_digit(c: char) -> bool {
    ('0' <= c && c <= '9') || ('a' <= c && c <= 'f') || ('A' <= c && c <= 'F')
}

pub open spec fn is_hyphen_position(i: int) -> bool {
    i == 8 || i == 13 || i == 18 || i == 23
}

/// A GUID in its hyphenated form, without braces.
pub open spec fn is_guid_text(t: Seq<char>) -> bool {
    &&& t.len() == GUID_TEXT_LEN
    &&& forall|i: int|
        0 <= i < GUID_TEXT_LEN ==> if is_hyphen_position(i) {
            t[i] == '-'
        } else {
            is_hex_digit(#[trigger] t[i])
        }
}

/// `s` without the braces round it, if it has them.
pub open spec fn strip_braces(s: Seq<char>) -> Seq<char> {
    if s.len() >= 2 && s[0] == '{' && s[s.len() - 1] == '}' {
        s.subrange(1, s.len() - 1)
    } else {
        s
    }
}

/// The GUID that `s` writes, with or without braces.
pub open spec fn guid_of(s: Seq<char>) -> Option<Seq<char>> {
    if is_guid_text(strip_braces(s)) {
        Some(strip_braces(s))
    } else {
        None
    }
}

/// Reading an endpoint identifier: the text before the first `;` is the
/// address; the text after it, up to any further `;`, is the GUID.
pub open spec fn parse_endpoint_id(s: Seq<char>) -> Result<
    (Seq<char>, Option<Seq<char>>),
    EndpointIdError,
> {
    let (email, rest) = split_first(s, ';');
    match rest {
        None => Ok((email, None)),
        Some(r) => match guid_of(split_first(r, ';').0) {
            Some(g) => Ok((email, Some(g))),
            None => Err(EndpointIdError::InvalidGuid),
        },
    }
}

/// How an endpoint identifier is written.
pub open spec fn endpoint_id_text(email: Seq<char>, guid: Option<Seq<char>>) -> Seq<char> {
    match guid {
        None => email,
        Some(g) => email + seq![';', '{'] + g + seq!['}'],
    }
}

/// The GUID of one endpoint of an account.
#[derive(Clone, Debug)]
pub struct EndpointGuid {
    text: String,
}

impl View for EndpointGuid {
    type V = Seq<char>;

    closed spec fn view(&self) -> Seq<char> {
        self.text@
    }
}

fn is_hex_digit_exec(c: char) -> (r: bool)
    ensures
        r == is_hex_digit(c),
{
    ('0' <= c && c <= '9') || ('a' <= c && c <= 'f') || ('A' <= c && c <= 'F')
}

impl EndpointGuid {
    pub open spec fn wf(&self) -> bool {
        is_guid_text(self@)
    }

    /// Reads a GUID written with or without braces.
    pub fn try_parse_str(s: &str) -> (r: Result<EndpointGuid, EndpointIdError>)
        ensures
            match r {
                Ok(g) => guid_of(s@) == Some(g@) && g.wf(),
                Err(e) => guid_of(s@) is None && e == EndpointIdError::InvalidGuid,
            },
    {
        let chars = chars_of(s);
        let n = chars.len();
        let (start, end) = if n >= 2 && chars[0] == '{' && chars[n - 1] == '}' {
            (1, n - 1)
        } else {
            (0, n)
        };
        let ghost t = strip_braces(s@);
        assert(t =~= chars@.subrange(start as int, end as int));
        if end - start != GUID_TEXT_LEN {
            return Err(EndpointIdError::InvalidGuid);
        }
        let mut text = String::new();
        let mut i: usize = 0;
        while i < GUID_TEXT_LEN
            invariant
                end - start == GUID_TEXT_LEN,
                end <= chars@.len(),
                chars@ == s@,
                t == chars@.subrange(start as int, end as int),
                t == strip_braces(s@),
                i <= GUID_TEXT_LEN,
                text@ == t.subrange(0, i as int),
                forall|j: int|
                    0 <= j < i ==> if is_hyphen_position(j) {
                        t[j] == '-'
                    } else {
                        is_hex_digit(#[trigger] t[j])
                    },
            decreases GUID_TEXT_LEN - i,
        {
            let c = chars[start + i];
            assert(c == t[i as int]);
            let ok = if i == 8 || i == 13 || i == 18 || i == 23 {
                c == '-'
            } else {
                is_hex_digit_exec(c)
            };
            if !ok {
                assert(!is_guid_text(t));
                return Err(EndpointIdError::InvalidGuid);
            }
            push_char(&mut text, c);
            assert(text@ =~= t.subrange(0, i + 1));
            i += 1;
        }
        assert(text@ =~= t);
        Ok(EndpointGuid { text })
    }

    /// The GUID in braces, as endpoint identifiers write it.
    pub fn to_string(&self) -> (r: String)
        ensures
            r@ == seq!['{'] + self@ + seq!['}'],
    {
        let mut out = String::new();
        push_char(&mut out, '{');
        push_str(&mut out, self.text.as_str());
        push_char(&mut out, '}');
        assert(out@ =~= seq!['{'] + self@ + seq!['}']);
        out
    }
}

/// An account's e-mail address and, where it names one, an endpoint of it.
#[derive(Clone, Debug)]
pub struct EndpointId {
    email_addr: String,
    endpoint_guid: Option<EndpointGuid>,
}

pub open spec fn guid_view(g: Option<EndpointGuid>) -> Option<Seq<char>> {
    match g {
        Some(g) => Some(g@),
        None => None,
    }
}

impl View for EndpointId {
    type V = (Seq<char>, Option<Seq<char>>);

    closed spec fn view(&self) -> (Seq<char>, Option<Seq<char>>) {
        (self.email_addr@, guid_view(self.endpoint_guid))
    }
}

impl EndpointId {
    /// Reads `address` or `address;{guid}`.
    pub fn from_str(s: &str) -> (r: Result<EndpointId, EndpointIdError>)
        ensures
            match r {
                Ok(id) => parse_endpoint_id(s@) == Ok::<(Seq<char>, Option<Seq<char>>), EndpointIdError>(id@),
                Err(e) => parse_endpoint_id(s@) == Err::<(Seq<char>, Option<Seq<char>>), EndpointIdError>(e),
            },
    {
        match split_once(s, ';') {
            None => Ok(EndpointId { email_addr: s.to_owned(), endpoint_guid: None }),
            Some((email, rest)) => {
                let guid_part = match split_once(rest, ';') {
                    None => rest,
                    Some((g, _)) => g,
                };
                match EndpointGuid::try_parse_str(guid_part) {
                    Ok(g) => Ok(EndpointId { email_addr: email.to_owned(), endpoint_guid: Some(g) }),
                    Err(e) => Err(e),
                }
            },
        }
    }

    /// The identifier as it is written.
    pub fn to_string(&self) -> (r: String)
        ensures
            r@ == endpoint_id_text(self@.0, self@.1),
    {
        let mut out = self.email_addr.clone();
        match &self.endpoint_guid {
            None => {},
            Some(g) => {
                push_char(&mut out, ';');
                let braced = g.to_string();
                push_str(&mut out, braced.as_str());
                assert(out@ =~= endpoint_id_text(self@.0, self@.1));
            },
        }
        out
    }

    /// The account's e-mail address.
    pub fn email_addr(&self) -> (r: &str)
        ensures
            r@ == self@.0,
    {
        self.email_addr.as_str()
    }

    /// The endpoint's GUID, where the identifier names one.
    pub fn endpoint_guid(&self) -> (r: Option<&EndpointGuid>)
        ensures
            match r {
                Some(g) => self@.1 == Some(g@),
                None => self@.1 is None,
            },
    {
        self.endpoint_guid.as_ref()
    }
}

/// Writing an endpoint identifier and reading it back gives the same
/// address and GUID, for an address without `;`.
pub proof fn lemma_endpoint_id_round_trip(email: Seq<char>, guid: Option<Seq<char>>)
    requires
        !email.contains(';'),
        guid matches Some(g) ==> is_guid_text(g),
    ensures
        parse_endpoint_id(endpoint_id_text(email, guid)) == Ok::<
            (Seq<char>, Option<Seq<char>>),
            EndpointIdError,
        >((email, guid)),
{
    match guid {
        None => {
            lemma_split_first_absent(email, ';');
        },
        Some(g) => {
            let braced = seq!['{'] + g + seq!['}'];
            assert(endpoint_id_text(email, guid) =~= email + seq![';'] + braced);
            lemma_split_first_at(email, braced, ';');
            assert(!braced.contains(';')) by {
                if braced.contains(';') {
                    let i = choose|i: int| 0 <= i < braced.len() && braced[i] == ';';
                    assert(braced[i] == g[i - 1]);
                }
            }
            lemma_split_first_absent(braced, ';');
            assert(strip_braces(braced) =~= g);
        },
    }
}

} // verus!
