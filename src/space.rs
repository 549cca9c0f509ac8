//! Data types of the Spaces web service: the contact card feed and the SOAP
//! fault that its calls may answer with.

use crate::text::push_str;
use vstd::prelude::*;

verus! {

/// An empty SOAP header.
#[derive(Clone, Debug, Default)]
pub struct Header {}

/// A SOAP fault: its code and its message, each optional.
#[derive(Clone, Debug, Default)]
pub struct SoapFault {
    pub fault_code: Option<String>,
    pub fault_string: Option<String>,
}

/// How a fault reads: the code and the message, joined by ": " when both are
/// present.
pub open spec fn fault_text(code: Option<Seq<char>>, message: Option<Seq<char>>) -> Seq<char> {
    match (code, message) {
        (None, None) => seq![],
        (None, Some(m)) => m,
        (Some(c), None) => c,
        (Some(c), Some(m)) => c + seq![':', ' '] + m,
    }
}

pub open spec fn opt_view(o: Option<String>) -> Option<Seq<char>> {
    match o {
        Some(s) => Some(s@),
        None => None,
    }
}

impl SoapFault {
    /// The fault as text.
    pub fn to_string(&self) -> (r: String)
        ensures
            r@ == fault_text(opt_view(self.fault_code), opt_view(self.fault_string)),
    {
        let mut out = String::new();
        match (&self.fault_code, &self.fault_string) {
            (None, None) => {},
            (None, Some(fault_string)) => push_str(&mut out, fault_string.as_str()),
            (Some(fault_code), None) => push_str(&mut out, fault_code.as_str()),
            (Some(fault_code), Some(fault_string)) => {
                push_str(&mut out, fault_code.as_str());
                push_str(&mut out, ": ");
                proof {
                    reveal_strlit(": ");
                }
                push_str(&mut out, fault_string.as_str());
                assert(out@ =~= fault_code@ + seq![':', ' '] + fault_string@);
            },
        }
        assert(out@ =~= fault_text(opt_view(self.fault_code), opt_view(self.fault_string)));
        out
    }
}

/// The authentication token that Spaces calls carry in their header.
#[derive(Clone, Debug, Default)]
pub struct AuthTokenHeader {
    pub token: String,
}

/// What a contact card feed request asks for, and since when.
#[derive(Clone, Debug, Default)]
pub struct RefreshInformationType {
    pub cid: String,
    pub storage_auth_cache: String,
    pub market: String,
    pub brand: String,
    pub max_element_count: i32,
    pub max_character_count: i32,
    pub max_image_count: i32,
    pub application_id: String,
    pub update_accessed_time: bool,
    pub space_last_viewed: String,
    pub profile_last_viewed: String,
    pub contact_profile_last_viewed: String,
    pub is_active_contact: bool,
}

/// A contact's card as the feed describes it.
#[derive(Clone, Debug, Default)]
pub struct ContactCardType {
    pub storage_auth_cache: String,
    pub last_update: String,
}

/// The body of a contact card feed request.
#[derive(Clone, Debug, Default)]
pub struct GetXmlFeedRequestType {
    pub refresh_information: RefreshInformationType,
}

/// The result of a contact card feed request.
#[derive(Clone, Debug, Default)]
pub struct GetXmlFeedResultType {
    pub contact_card: ContactCardType,
}

/// The body of a contact card feed response.
#[derive(Clone, Debug, Default)]
pub struct GetXmlFeedResponseType {
    pub get_xml_feed_result: GetXmlFeedResultType,
}

} // verus!
